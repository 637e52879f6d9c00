//! The chat history of the current channel and how messages are shown.
use vstd::prelude::*;
use crate::model::{Channel, ChannelView, Message, MessageView, messages_view};
use crate::text::{contains, is_substring, chars_of};

verus! {

/// The number of messages above which the oldest one is dropped.
pub const CHAT_MAX_SIZE: usize = 10;

/// A batch fetched from the server is taken when it is not empty and either
/// nothing is shown yet or the id of its newest message does not contain the
/// id of the newest message shown.
pub open spec fn accepts_batch(shown: Seq<MessageView>, batch: Seq<MessageView>) -> bool {
    batch.len() > 0 && (shown.len() == 0 || !is_substring(shown.last().id, batch.last().id))
}

/// The history after a fetched batch: the batch is appended when it is taken,
/// then the oldest message is dropped once if the history is longer than
/// `CHAT_MAX_SIZE`.
pub open spec fn merged_history(shown: Seq<MessageView>, batch: Seq<MessageView>) -> Seq<MessageView> {
    let appended = if accepts_batch(shown, batch) {
        shown + batch
    } else {
        shown
    };
    if appended.len() > CHAT_MAX_SIZE {
        appended.drop_first()
    } else {
        appended
    }
}

/// `c` with its history replaced by `msgs` and everything else kept.
pub open spec fn with_history(c: ChannelView, msgs: Seq<MessageView>) -> ChannelView {
    ChannelView { id: c.id, channel_name: c.channel_name, users: c.users, chat_msgs: Some(msgs) }
}

impl Channel {
    /// Takes a batch of messages fetched from the server into the history.
    pub fn merge_chat_messages(&mut self, incoming: Vec<Message>)
        requires
            old(self).chat_msgs is Some,
        ensures
            final(self)@ == with_history(
                old(self)@,
                merged_history(old(self)@.chat_msgs->0, messages_view(incoming@)),
            ),
    {
        let ghost shown = self@.chat_msgs->0;
        let ghost batch = messages_view(incoming@);
        let mut msgs = match self.chat_msgs.take() {
            Some(m) => m,
            None => Vec::new(),
        };
        let mut incoming = incoming;
        let take = if incoming.len() > 0 {
            if msgs.len() > 0 {
                let newest = &incoming[incoming.len() - 1].id;
                let last_shown = &msgs[msgs.len() - 1].id;
                !contains(newest.as_str(), last_shown.as_str())
            } else {
                true
            }
        } else {
            false
        };
        assert(take == accepts_batch(shown, batch));
        if take {
            let ghost before = msgs@;
            let ghost added = incoming@;
            msgs.append(&mut incoming);
            assert(messages_view(msgs@) =~= shown + batch) by {
                assert(msgs@ == before + added);
            }
        }
        if msgs.len() > CHAT_MAX_SIZE {
            let ghost before = msgs@;
            msgs.remove(0);
            assert(messages_view(msgs@) =~= messages_view(before).drop_first());
        }
        self.chat_msgs = Some(msgs);
        assert(self@ == with_history(old(self)@, merged_history(shown, batch)));
    }
}

/// The position of the first space in `s` at or after `from`, or the length
/// of `s` when there is none.
pub open spec fn next_space(s: Seq<char>, from: int) -> int
    decreases s.len() - from,
{
    if from >= s.len() || from < 0 {
        s.len() as int
    } else if s[from] == ' ' {
        from
    } else {
        next_space(s, from + 1)
    }
}

fn find_space(v: &Vec<char>, from: usize) -> (i: usize)
    requires
        from <= v@.len(),
    ensures
        i as int == next_space(v@, from as int),
        from <= i <= v@.len(),
{
    let mut i = from;
    while i < v.len()
        invariant
            from <= i <= v@.len(),
            next_space(v@, i as int) == next_space(v@, from as int),
        decreases v@.len() - i,
    {
        if v[i] == ' ' {
            return i;
        }
        i = i + 1;
    }
    i
}

/// The two texts shown for a message date such as "12.5.2022 14:03":
/// the first space-separated word framed as a label, and the second word.
pub open spec fn date_label(date: Seq<char>) -> Seq<char> {
    seq!['[', ' '] + date.take(next_space(date, 0)) + seq![' ', ']', ':', ' ']
}

/// The second space-separated word of a date, shown when hovering its label.
pub open spec fn date_detail(date: Seq<char>) -> Seq<char> {
    let first = next_space(date, 0);
    date.subrange(first + 1, next_space(date, first + 1))
}

/// A date has a second word only when it holds a space.
pub open spec fn has_two_words(date: Seq<char>) -> bool {
    next_space(date, 0) < date.len()
}

/// Splits a message date into its label and the text shown on hover.
pub fn date_parts(date: &str) -> (parts: (String, String))
    requires
        has_two_words(date@),
    ensures
        parts.0@ == date_label(date@),
        parts.1@ == date_detail(date@),
{
    let v = chars_of(date);
    let first = find_space(&v, 0);
    assert(first < v.len());
    let second = find_space(&v, first + 1);
    let mut label = String::new();
    proof {
        reveal_strlit("[ ");
        reveal_strlit(" ]: ");
    }
    label.append("[ ");
    label.append(date.substring_char(0, first));
    label.append(" ]: ");
    assert(label@ =~= date_label(date@));
    let detail = date.substring_char(first + 1, second).to_owned();
    (label, detail)
}

} // verus!
