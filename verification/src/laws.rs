//! Properties that hold across the operations of the client.
use vstd::prelude::*;
use crate::model::{ChannelView, MessageView, UserView, empty_channel_view};
use crate::client::{ClientView, disconnected, entered, without_users, submit_outcome, is_known_channel, with_users,
    first_member_channel};
use crate::protocol::all_zero;
use crate::chat::{CHAT_MAX_SIZE, merged_history, accepts_batch};
use crate::app_state::{AppView, toggled, last_index_where, id_in, named_in, selected_channel_of};
use crate::config::{Entries, ini_set_spec, section_entries, first_value, user_section, name_key, quoted,
    store_channels_spec, channels_section, without_key};
use crate::text::{is_substring, utf8, cut_allowed};
use crate::protocol::{line_of, strip_line_end};

verus! {

/// Reading back a line written by `signal_line` gives the signal that was sent.
pub proof fn law_signal_round_trip(signal: Seq<char>)
    ensures
        strip_line_end(line_of(signal)) == signal,
{
    assert(line_of(signal).drop_last() =~= signal);
}

/// A text cut to `max` bytes fits in `max` bytes and may be cut again, which
/// then leaves it as it is: cutting twice is cutting once.
pub proof fn law_cut_fits(s: Seq<char>, r: Seq<char>, max: nat)
    requires
        cut_allowed(s, max),
        utf8(s).len() <= max ==> r == s,
        utf8(s).len() > max ==> utf8(r) == utf8(s).take(max as int),
    ensures
        utf8(r).len() <= max,
        cut_allowed(r, max),
{
}

/// Toggling the connection dialog twice leaves the window as it was.
pub proof fn law_toggle_twice(a: AppView)
    ensures
        toggled(toggled(a)) == a,
{
}

/// Disconnecting a disconnected client changes nothing more.
pub proof fn law_disconnect_idempotent(c: ClientView)
    ensures
        disconnected(disconnected(c)) == disconnected(c),
{
    let once = disconnected(c);
    assert(once.channelpool.map_values(|ch: ChannelView| without_users(ch)) =~= once.channelpool);
}

/// After disconnecting, no channel is current and no known channel keeps a
/// member list, while the known channels themselves stay.
pub proof fn law_disconnect_forgets_members(c: ClientView)
    ensures
        !disconnected(c).connected,
        disconnected(c).connected_to == empty_channel_view(),
        disconnected(c).channelpool.len() == c.channelpool.len(),
        forall|i: int| 0 <= i < c.channelpool.len() ==> (#[trigger] disconnected(c).channelpool[i]).users is None
            && disconnected(c).channelpool[i].id == c.channelpool[i].id,
{
}

/// A client that entered a channel leaves exactly that channel: the id it
/// announces when disconnecting is the entered channel's id.
pub proof fn law_leave_what_was_entered(c: ClientView, ch: ChannelView, history: Seq<MessageView>)
    ensures
        entered(c, ch, history).connected,
        entered(c, ch, history).connected_to.id == ch.id,
        entered(c, ch, history).connected_to.chat_msgs == Some(history),
        disconnected(entered(c, ch, history)).connected_to.id == Seq::<char>::empty(),
{
}

/// A history within `CHAT_MAX_SIZE` messages stays within it when the server
/// hands over at most one new message at a time.
pub proof fn law_history_bounded(shown: Seq<MessageView>, batch: Seq<MessageView>)
    requires
        shown.len() <= CHAT_MAX_SIZE,
        batch.len() <= 1,
    ensures
        merged_history(shown, batch).len() <= CHAT_MAX_SIZE,
{
}

/// A taken batch ends the history: its newest message is the newest shown,
/// and nothing shown before is reordered.
pub proof fn law_history_newest_last(shown: Seq<MessageView>, batch: Seq<MessageView>)
    requires
        accepts_batch(shown, batch),
    ensures
        merged_history(shown, batch).last() == batch.last(),
        merged_history(shown, batch).len() > 0,
{
    let appended = shown + batch;
    assert(appended.last() == batch.last());
    if appended.len() > CHAT_MAX_SIZE {
        assert(appended.drop_first().last() == appended.last());
    }
}

/// An unaccepted batch leaves the history alone, apart from dropping the
/// oldest message of an overlong history.
pub proof fn law_history_rejected_batch(shown: Seq<MessageView>, batch: Seq<MessageView>)
    requires
        !accepts_batch(shown, batch),
        shown.len() <= CHAT_MAX_SIZE,
    ensures
        merged_history(shown, batch) == shown,
{
}

/// Once a channel is known, any text that contains its id counts as a
/// duplicate and is not sent to the server again.
pub proof fn law_known_channel_is_duplicate(pool: Seq<ChannelView>, added: ChannelView, text: Seq<char>)
    requires
        is_substring(added.id, text),
    ensures
        exists|i: int| 0 <= i < pool.push(added).len() && is_substring(#[trigger] pool.push(added)[i].id, text),
{
    assert(pool.push(added)[pool.len() as int] == added);
}

/// Reading the user name back after saving it gives the saved, quoted name.
pub proof fn law_username_read_back(m: Map<Option<Seq<char>>, Entries>, name: Seq<char>)
    ensures
        ({
            let after = ini_set_spec(m, user_section(), name_key(), quoted(name));
            after.contains_key(Some(user_section())) && first_value(after[Some(user_section())], name_key())
                == Some(quoted(name))
        }),
{
    let after = ini_set_spec(m, user_section(), name_key(), quoted(name));
    let e = without_key(section_entries(m, user_section()), name_key());
    lemma_without_key_lacks(section_entries(m, user_section()), name_key());
    lemma_first_value_after_absent(e, name_key(), quoted(name));
}

/// Reading the saved channels back gives the ids of the known channels, in
/// their order.
pub proof fn law_channels_read_back(m: Map<Option<Seq<char>>, Entries>, ids: Seq<Seq<char>>)
    ensures
        section_entries(store_channels_spec(m, ids), channels_section()).map_values(
            |e: (Seq<char>, Seq<char>)| e.1,
        ) == ids,
{
    let after = store_channels_spec(m, ids);
    if ids.len() == 0 {
        assert(!after.contains_key(Some(channels_section())));
        assert(section_entries(after, channels_section()).map_values(|e: (Seq<char>, Seq<char>)| e.1) =~= ids);
    } else {
        assert(after.contains_key(Some(channels_section())));
        assert(section_entries(after, channels_section()) == crate::config::channel_entries(ids));
        assert(section_entries(after, channels_section()).map_values(|e: (Seq<char>, Seq<char>)| e.1) =~= ids);
    }
}

/// One submission of a channel text adds at most one channel, at the end:
/// the known channels before are a prefix of those after, the answer is
/// "added" exactly when the list grew by one, and nothing else changes.
pub proof fn law_one_submission(c: ClientView, text: Seq<char>, reply: Seq<u8>, decoded: Option<ChannelView>)
    requires
        !all_zero(reply) ==> decoded is Some,
    ensures
        ({
            let (after, added) = submit_outcome(c, text, reply, decoded);
            &&& after.channelpool.len() <= c.channelpool.len() + 1
            &&& c.channelpool.len() <= after.channelpool.len()
            &&& after.channelpool.take(c.channelpool.len() as int) == c.channelpool
            &&& added == (after.channelpool.len() == c.channelpool.len() + 1)
            &&& after == (ClientView { channelpool: after.channelpool, ..c })
        }),
{
    let (after, added) = submit_outcome(c, text, reply, decoded);
    assert(c.channelpool.take(c.channelpool.len() as int) =~= c.channelpool);
    assert(c.channelpool.push(decoded->0).take(c.channelpool.len() as int) =~= c.channelpool);
}

/// The known channels after submitting each of `texts` in turn, the server
/// answering the `k`-th with a (non-zero) reply that describes `answers[k]`.
pub open spec fn resubmitted(c: ClientView, texts: Seq<Seq<char>>, answers: Seq<ChannelView>) -> ClientView
    decreases texts.len(),
{
    if texts.len() == 0 || answers.len() < texts.len() {
        c
    } else {
        let before = resubmitted(c, texts.drop_last(), answers.take(texts.len() - 1));
        submit_outcome(before, texts.last(), seq![1u8], Some(answers[texts.len() - 1])).0
    }
}

/// Saving the known channels and adding the saved ids again to a client
/// without channels, the server describing each channel under the id asked
/// for, gives back the same ids in the same order when no id contains an
/// earlier one.
pub proof fn law_saved_channels_restore(
    m: Map<Option<Seq<char>>, Entries>,
    saved: Seq<ChannelView>,
    c: ClientView,
    answers: Seq<ChannelView>,
)
    requires
        c.channelpool.len() == 0,
        answers.len() == saved.len(),
        forall|k: int| 0 <= k < saved.len() ==> #[trigger] answers[k].id == saved[k].id,
        forall|j: int, k: int| 0 <= j < k < saved.len() ==> !is_substring(#[trigger] saved[j].id, #[trigger] saved[k].id),
    ensures
        ({
            let ids = saved.map_values(|ch: ChannelView| ch.id);
            let texts = section_entries(store_channels_spec(m, ids), channels_section()).map_values(
                |e: (Seq<char>, Seq<char>)| e.1,
            );
            resubmitted(c, texts, answers).channelpool.map_values(|ch: ChannelView| ch.id) == ids
        }),
{
    let ids = saved.map_values(|ch: ChannelView| ch.id);
    law_channels_read_back(m, ids);
    lemma_resubmitted_ids(c, ids, answers, ids.len());
    assert(ids.take(ids.len() as int) =~= ids);
    assert(answers.take(ids.len() as int) =~= answers);
}

proof fn lemma_resubmitted_ids(c: ClientView, ids: Seq<Seq<char>>, answers: Seq<ChannelView>, n: nat)
    requires
        c.channelpool.len() == 0,
        n <= ids.len(),
        answers.len() == ids.len(),
        forall|k: int| 0 <= k < ids.len() ==> #[trigger] answers[k].id == ids[k],
        forall|j: int, k: int| 0 <= j < k < ids.len() ==> !is_substring(#[trigger] ids[j], #[trigger] ids[k]),
    ensures
        resubmitted(c, ids.take(n as int), answers.take(n as int)).channelpool.map_values(|ch: ChannelView| ch.id)
            == ids.take(n as int),
        resubmitted(c, ids.take(n as int), answers.take(n as int)).channelpool.len() == n,
    decreases n,
{
    let texts = ids.take(n as int);
    let ans = answers.take(n as int);
    if n == 0 {
        assert(c.channelpool.map_values(|ch: ChannelView| ch.id) =~= ids.take(0));
    } else {
        lemma_resubmitted_ids(c, ids, answers, (n - 1) as nat);
        assert(texts.drop_last() =~= ids.take(n - 1));
        assert(ans.take(texts.len() - 1) =~= answers.take(n - 1));
        let before = resubmitted(c, ids.take(n - 1), answers.take(n - 1));
        let pool = before.channelpool;
        assert(pool.map_values(|ch: ChannelView| ch.id) == ids.take(n - 1));
        assert(texts.last() == ids[n - 1]);
        if is_known_channel(pool, texts.last()) {
            let i = choose|i: int| 0 <= i < pool.len() && is_substring(#[trigger] pool[i].id, texts.last());
            assert(pool.map_values(|ch: ChannelView| ch.id)[i] == pool[i].id);
            assert(ids.take(n - 1)[i] == ids[i]);
            assert(false);
        }
        assert(!all_zero(seq![1u8])) by {
            assert(seq![1u8][0] == 1u8);
        }
        assert(ans[n - 1] == answers[n - 1]);
        let after = resubmitted(c, texts, ans);
        assert(after.channelpool == pool.push(answers[n - 1]));
        assert(after.channelpool.map_values(|ch: ChannelView| ch.id) =~= ids.take(n as int));
    }
}

/// A batch whose newest id does not contain the id of the newest shown
/// message is appended after the shown messages (within the size limit);
/// no other shown message is compared.
pub proof fn law_merge_appends_new_batch(shown: Seq<MessageView>, batch: Seq<MessageView>)
    requires
        shown.len() > 0,
        batch.len() > 0,
        !is_substring(shown[shown.len() - 1].id, batch[batch.len() - 1].id),
        shown.len() + batch.len() <= CHAT_MAX_SIZE,
    ensures
        merged_history(shown, batch) == shown + batch,
        merged_history(shown, batch)[merged_history(shown, batch).len() - 1] == batch[batch.len() - 1],
{
}

/// A batch whose newest id contains the id of the newest shown message is
/// not shown; a history within the size limit stays as it is.
pub proof fn law_merge_refuses_repeated_batch(shown: Seq<MessageView>, batch: Seq<MessageView>)
    requires
        shown.len() > 0,
        batch.len() > 0,
        is_substring(shown[shown.len() - 1].id, batch[batch.len() - 1].id),
        shown.len() <= CHAT_MAX_SIZE,
    ensures
        merged_history(shown, batch) == shown,
{
}

/// Into an empty history any non-empty batch within the limit is taken whole.
pub proof fn law_merge_into_empty(batch: Seq<MessageView>)
    requires
        batch.len() > 0,
        batch.len() <= CHAT_MAX_SIZE,
    ensures
        merged_history(Seq::empty(), batch) == batch,
{
    assert(Seq::<MessageView>::empty() + batch =~= batch);
}

/// Only the newest shown message takes part in the decision: two histories
/// of the same length that end in the same message give histories of the
/// same length, ending in the same message.
pub proof fn law_merge_only_newest_shown_matters(
    shown1: Seq<MessageView>,
    shown2: Seq<MessageView>,
    batch: Seq<MessageView>,
)
    requires
        shown1.len() == shown2.len(),
        shown1.len() > 0,
        shown1[shown1.len() - 1] == shown2[shown2.len() - 1],
    ensures
        merged_history(shown1, batch).len() == merged_history(shown2, batch).len(),
        merged_history(shown1, batch).len() > 0 ==> merged_history(shown1, batch)[merged_history(shown1, batch).len() - 1]
            == merged_history(shown2, batch)[merged_history(shown2, batch).len() - 1],
{
    let a1 = if accepts_batch(shown1, batch) { shown1 + batch } else { shown1 };
    let a2 = if accepts_batch(shown2, batch) { shown2 + batch } else { shown2 };
    assert(shown1.last() == shown2.last());
    assert(a1.len() == a2.len());
    assert(a1[a1.len() - 1] == a2[a2.len() - 1]);
    if a1.len() > CHAT_MAX_SIZE {
        assert(a1.drop_first()[a1.len() - 2] == a1[a1.len() - 1]);
        assert(a2.drop_first()[a2.len() - 2] == a2[a2.len() - 1]);
    }
}

/// Storing a fetched member list replaces the channel's list, whatever it
/// held before; storing twice keeps the second list; nothing else of the
/// channel changes.
pub proof fn law_members_replaced(c: ChannelView, first: Seq<UserView>, second: Seq<UserView>)
    ensures
        with_users(c, first).users == Some(first),
        with_users(with_users(c, first), second).users == Some(second),
        with_users(with_users(c, first), second) == with_users(c, second),
        with_users(c, first).id == c.id,
        with_users(c, first).channel_name == c.channel_name,
        with_users(c, first).chat_msgs == c.chat_msgs,
{
}

/// The channel that receives the member list is the first known channel
/// whose id occurs in the current channel's id; none when there is no such
/// channel.
pub proof fn law_members_go_to_first_match(pool: Seq<ChannelView>, current: Seq<char>)
    ensures
        ({
            let at = first_member_channel(pool, current, 0);
            &&& 0 <= at <= pool.len()
            &&& at < pool.len() ==> is_substring(pool[at].id, current)
            &&& forall|j: int| 0 <= j < at ==> !is_substring(#[trigger] pool[j].id, current)
        }),
{
    lemma_first_member(pool, current, 0);
}

proof fn lemma_first_member(pool: Seq<ChannelView>, current: Seq<char>, from: int)
    requires
        0 <= from <= pool.len(),
    ensures
        ({
            let at = first_member_channel(pool, current, from);
            &&& from <= at <= pool.len()
            &&& at < pool.len() ==> is_substring(pool[at].id, current)
            &&& forall|j: int| from <= j < at ==> !is_substring(#[trigger] pool[j].id, current)
        }),
    decreases pool.len() - from,
{
    if from < pool.len() && !is_substring(pool[from].id, current) {
        lemma_first_member(pool, current, from + 1);
    }
}

/// Entering a channel makes it the current channel in every field but its
/// history, which is the fetched one: its id, name and member list stay.
pub proof fn law_entered_channel_kept(c: ClientView, ch: ChannelView, history: Seq<MessageView>)
    ensures
        entered(c, ch, history).connected_to.id == ch.id,
        entered(c, ch, history).connected_to.channel_name == ch.channel_name,
        entered(c, ch, history).connected_to.users == ch.users,
        entered(c, ch, history).connected_to.chat_msgs == Some(history),
        entered(c, ch, history).channelpool == c.channelpool,
        entered(c, ch, history).id == c.id,
        entered(c, ch, history).username == c.username,
{
}

/// After a channel was added, the selection is the name of the last known
/// channel whose id occurs in the typed text; a channel whose id merely
/// contains the typed text is not chosen; no selection when none occurs.
pub proof fn law_added_channel_selection(pool: Seq<ChannelView>, text: Seq<char>)
    ensures
        ({
            let at = last_index_where(pool, id_in(text), pool.len() as int);
            &&& -1 <= at < pool.len()
            &&& at >= 0 ==> is_substring(pool[at].id, text)
            &&& forall|j: int| at < j < pool.len() ==> !is_substring(#[trigger] pool[j].id, text)
        }),
{
    lemma_last_index(pool, id_in(text), pool.len() as int);
    let at = last_index_where(pool, id_in(text), pool.len() as int);
    assert forall|j: int| at < j < pool.len() implies !is_substring(#[trigger] pool[j].id, text) by {
        assert(!id_in(text)(pool[j]));
    }
    if at >= 0 {
        assert(id_in(text)(pool[at]));
    }
}

/// The channel joined for a selection text is the last known channel whose
/// name occurs in the selection, or the empty channel when no name does; a
/// channel whose name merely contains the selection is not chosen.
pub proof fn law_selected_channel(pool: Seq<ChannelView>, text: Seq<char>)
    ensures
        (forall|j: int| 0 <= j < pool.len() ==> !is_substring(#[trigger] pool[j].channel_name, text))
            ==> selected_channel_of(pool, text) == empty_channel_view(),
        (exists|j: int| 0 <= j < pool.len() && is_substring(#[trigger] pool[j].channel_name, text)) ==> exists|k: int|
            0 <= k < pool.len() && selected_channel_of(pool, text) == pool[k] && is_substring(
                pool[k].channel_name,
                text,
            ) && forall|j: int| k < j < pool.len() ==> !is_substring(#[trigger] pool[j].channel_name, text),
{
    let p = named_in(text);
    lemma_last_index(pool, p, pool.len() as int);
    let at = last_index_where(pool, p, pool.len() as int);
    if at >= 0 {
        assert(p(pool[at]));
        assert forall|j: int| at < j < pool.len() implies !is_substring(#[trigger] pool[j].channel_name, text) by {
            assert(!p(pool[j]));
        }
    } else {
        assert forall|j: int| 0 <= j < pool.len() implies !is_substring(#[trigger] pool[j].channel_name, text) by {
            assert(!p(pool[j]));
        }
    }
}

proof fn lemma_last_index(pool: Seq<ChannelView>, p: spec_fn(ChannelView) -> bool, upto: int)
    requires
        0 <= upto <= pool.len(),
    ensures
        ({
            let at = last_index_where(pool, p, upto);
            &&& -1 <= at < upto
            &&& at >= 0 ==> p(pool[at])
            &&& forall|j: int| at < j < upto ==> !p(#[trigger] pool[j])
        }),
    decreases upto,
{
    if upto > 0 && !p(pool[upto - 1]) {
        lemma_last_index(pool, p, upto - 1);
    }
}

proof fn lemma_without_key_lacks(e: Entries, key: Seq<char>)
    ensures
        forall|i: int| 0 <= i < without_key(e, key).len() ==> #[trigger] without_key(e, key)[i].0 != key,
    decreases e.len(),
{
    if e.len() > 0 {
        lemma_without_key_lacks(e.drop_last(), key);
        let rest = without_key(e.drop_last(), key);
        if e.last().0 != key {
            assert forall|i: int| 0 <= i < rest.push(e.last()).len() implies #[trigger] rest.push(
                e.last(),
            )[i].0 != key by {
                if i < rest.len() {
                    assert(rest.push(e.last())[i] == rest[i]);
                }
            }
        }
    }
}

proof fn lemma_first_value_after_absent(e: Entries, key: Seq<char>, value: Seq<char>)
    requires
        forall|i: int| 0 <= i < e.len() ==> #[trigger] e[i].0 != key,
    ensures
        first_value(e.push((key, value)), key) == Some(value),
    decreases e.len(),
{
    if e.len() > 0 {
        assert(e[0].0 != key);
        assert(e.push((key, value)).drop_first() =~= e.drop_first().push((key, value)));
        lemma_first_value_after_absent(e.drop_first(), key, value);
    } else {
        assert(e.push((key, value))[0] == (key, value));
    }
}

} // verus!
