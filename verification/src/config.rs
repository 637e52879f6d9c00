//! The configuration file: the user's name under `[User]` and the ids of
//! the known channels under `[Channels]`, kept in an `ini::Ini` value.
use vstd::prelude::*;
use ini::Ini;
use crate::model::{Channel, channels_view};
use crate::client::{Client, ClientView, fresh_client};
use crate::ident::is_alphanumeric;
use crate::text::{decimal, digit_char, push_decimal};

verus! {

#[verifier::external_type_specification]
#[verifier::external_body]
pub struct ExIni(Ini);

/// The entries of one section, in their order: key and value.
pub type Entries = Seq<(Seq<char>, Seq<char>)>;

/// What an `Ini` holds: for each section name (`None` is the general
/// section) the entries of the first section with that name.
pub uninterp spec fn ini_sections(ini: Ini) -> Map<Option<Seq<char>>, Seq<(Seq<char>, Seq<char>)>>;

/// The entries of section `name` in `m`, empty when there is no such section.
pub open spec fn section_entries(m: Map<Option<Seq<char>>, Entries>, name: Seq<char>) -> Entries {
    if m.contains_key(Some(name)) {
        m[Some(name)]
    } else {
        Seq::empty()
    }
}

/// `e` without any entry under `key`, the others in their order.
pub open spec fn without_key(e: Entries, key: Seq<char>) -> Entries
    decreases e.len(),
{
    if e.len() == 0 {
        e
    } else if e.last().0 == key {
        without_key(e.drop_last(), key)
    } else {
        without_key(e.drop_last(), key).push(e.last())
    }
}

/// Setting `key` to `value` in a section: every entry under `key` goes, and
/// the new entry comes last.
pub open spec fn set_entry(e: Entries, key: Seq<char>, value: Seq<char>) -> Entries {
    without_key(e, key).push((key, value))
}

/// The first value under `key`, if any.
pub open spec fn first_value(e: Entries, key: Seq<char>) -> Option<Seq<char>>
    decreases e.len(),
{
    if e.len() == 0 {
        None
    } else if e[0].0 == key {
        Some(e[0].1)
    } else {
        first_value(e.drop_first(), key)
    }
}

/// The contents after setting `key` to `value` in section `name`.
pub open spec fn ini_set_spec(
    m: Map<Option<Seq<char>>, Entries>,
    name: Seq<char>,
    key: Seq<char>,
    value: Seq<char>,
) -> Map<Option<Seq<char>>, Entries> {
    m.insert(Some(name), set_entry(section_entries(m, name), key, value))
}

/// The contents of an `Ini` without any section.
pub open spec fn no_sections() -> Map<Option<Seq<char>>, Entries> {
    Map::empty()
}

/// Makes an empty `Ini` with rust-ini's `Ini::new`.
#[verifier::external_body]
fn ini_new() -> (fresh: Ini)
    ensures
        ini_sections(fresh) == no_sections(),
{
    Ini::new()
}

/// rust-ini's `ini.with_section(Some(name)).set(key, value)`: the first
/// section called `name` is taken (a new one is added at the end when there
/// is none) and `Properties::insert` removes every entry under `key` from it
/// and appends `(key, value)`.
#[verifier::external_body]
fn ini_set(ini: &mut Ini, name: &str, key: &str, value: &str)
    ensures
        ini_sections(*final(ini)) == ini_set_spec(ini_sections(*old(ini)), name@, key@, value@),
{
    ini.with_section(Some(name)).set(key, value);
}

/// rust-ini's `ini.with_section(Some(name)).get(key)`: the first value under
/// `key` in the first section called `name`, `None` when either is missing.
#[verifier::external_body]
fn ini_get(ini: &mut Ini, name: &str, key: &str) -> (v: Option<String>)
    ensures
        ini_sections(*final(ini)) == ini_sections(*old(ini)),
        v is Some <==> (ini_sections(*old(ini)).contains_key(Some(name@)) && first_value(
            ini_sections(*old(ini))[Some(name@)],
            key@,
        ) is Some),
        v is Some ==> v->0@ == first_value(ini_sections(*old(ini))[Some(name@)], key@)->0,
{
    ini.with_section(Some(name)).get(key).map(String::from)
}

/// rust-ini's `ini.delete(Some(name))`: every section called `name` goes.
#[verifier::external_body]
fn ini_delete(ini: &mut Ini, name: &str)
    ensures
        ini_sections(*final(ini)) == ini_sections(*old(ini)).remove(Some(name@)),
{
    ini.delete(Some(name));
}

/// The values of the first section called `name`, in order, taken from
/// rust-ini's `ini.section(Some(name))` and `Properties::iter`; none when
/// there is no such section.
#[verifier::external_body]
fn ini_section_values(ini: &Ini, name: &str) -> (vals: Vec<String>)
    ensures
        vals@.map_values(|s: String| s@) == section_entries(ini_sections(*ini), name@).map_values(
            |e: (Seq<char>, Seq<char>)| e.1,
        ),
{
    ini.section(Some(name)).into_iter().flat_map(|p| p.iter()).map(|(_, v)| v.to_string()).collect()
}

/// The section that holds the user.
pub open spec fn user_section() -> Seq<char> {
    seq!['U', 's', 'e', 'r']
}

/// The key of the user's name.
pub open spec fn name_key() -> Seq<char> {
    seq!['n', 'a', 'm', 'e']
}

/// The section that holds the known channels.
pub open spec fn channels_section() -> Seq<char> {
    seq!['C', 'h', 'a', 'n', 'n', 'e', 'l', 's']
}

/// The key under which the `n`-th channel (counting from 1) is saved.
pub open spec fn channel_key(n: nat) -> Seq<char> {
    seq!['c', 'h', 'a', 'n', 'n', 'e', 'l'] + decimal(n)
}

/// A user name as it is written to the file: between double quotes.
pub open spec fn quoted(name: Seq<char>) -> Seq<char> {
    seq!['"'] + name + seq!['"']
}

/// The `[Channels]` entries for the given channel ids, numbered from 1.
pub open spec fn channel_entries(ids: Seq<Seq<char>>) -> Entries {
    Seq::new(ids.len(), |i: int| (channel_key((i + 1) as nat), ids[i]))
}

/// The contents after saving the known channels: the old `[Channels]`
/// section goes, and a new one lists the channel ids when there are any.
pub open spec fn store_channels_spec(m: Map<Option<Seq<char>>, Entries>, ids: Seq<Seq<char>>) -> Map<
    Option<Seq<char>>,
    Entries,
> {
    if ids.len() == 0 {
        m.remove(Some(channels_section()))
    } else {
        m.remove(Some(channels_section())).insert(Some(channels_section()), channel_entries(ids))
    }
}

fn user_str() -> (t: &'static str)
    ensures
        t@ == user_section(),
{
    proof {
        reveal_strlit("User");
    }
    let t = "User";
    assert(t@ =~= user_section());
    t
}

fn name_str() -> (t: &'static str)
    ensures
        t@ == name_key(),
{
    proof {
        reveal_strlit("name");
    }
    let t = "name";
    assert(t@ =~= name_key());
    t
}

fn channels_str() -> (t: &'static str)
    ensures
        t@ == channels_section(),
{
    proof {
        reveal_strlit("Channels");
    }
    let t = "Channels";
    assert(t@ =~= channels_section());
    t
}

fn quote_str() -> (t: &'static str)
    ensures
        t@ == seq!['"'],
{
    proof {
        reveal_strlit("\"");
    }
    let t = "\"";
    assert(t@ =~= seq!['"']);
    t
}

/// The key of the `n`-th saved channel.
pub fn channel_key_string(n: usize) -> (k: String)
    ensures
        k@ == channel_key(n as nat),
{
    proof {
        reveal_strlit("channel");
    }
    let mut k = String::new();
    k.append("channel");
    push_decimal(&mut k, n);
    assert(k@ =~= channel_key(n as nat));
    k
}

/// The configuration written when there is none yet: an empty user name.
pub fn default_config() -> (conf: Ini)
    ensures
        ini_sections(conf) == no_sections().insert(
            Some(user_section()),
            seq![(name_key(), Seq::<char>::empty())],
        ),
{
    let mut conf = ini_new();
    proof {
        reveal_strlit("");
    }
    let nothing = "";
    assert(nothing@ =~= Seq::<char>::empty());
    ini_set(&mut conf, user_str(), name_str(), nothing);
    proof {
        let m = no_sections();
        assert(section_entries(m, user_section()) =~= Seq::<(Seq<char>, Seq<char>)>::empty());
        assert(set_entry(Seq::empty(), name_key(), Seq::empty()) =~= seq![(name_key(), Seq::<char>::empty())]);
    }
    conf
}

/// Saves the user name, between double quotes, under `[User]`.
pub fn store_username(conf: &mut Ini, username: &String)
    ensures
        ini_sections(*final(conf)) == ini_set_spec(
            ini_sections(*old(conf)),
            user_section(),
            name_key(),
            quoted(username@),
        ),
{
    let mut value = String::new();
    value.append(quote_str());
    value.append(username.as_str());
    value.append(quote_str());
    assert(value@ =~= quoted(username@));
    ini_set(conf, user_str(), name_str(), value.as_str());
}

/// Sets up the client from the configuration: the saved user name and a
/// fresh random id. `None` when no user name is saved.
pub fn init_user(conf: &mut Ini) -> (c: Option<Client>)
    ensures
        ini_sections(*final(conf)) == ini_sections(*old(conf)),
        ({
            let m = ini_sections(*old(conf));
            let saved = if m.contains_key(Some(user_section())) {
                first_value(m[Some(user_section())], name_key())
            } else {
                None
            };
            &&& c is Some <==> saved is Some
            &&& c is Some ==> {
                let v = c->0@;
                &&& v.id.len() == crate::client::ID_LEN
                &&& forall|i: int| 0 <= i < v.id.len() ==> is_alphanumeric(#[trigger] v.id[i])
                &&& v == (ClientView { id: v.id, username: saved->0, inited: true, ..fresh_client() })
            }
        }),
{
    match ini_get(conf, user_str(), name_str()) {
        Some(name) => Some(Client::with_random_id(name)),
        None => None,
    }
}

/// Saves the ids of the known channels under `[Channels]`, as `channel1`,
/// `channel2`, ... in the order of the list.
pub fn store_channels(conf: &mut Ini, pool: &Vec<Channel>)
    ensures
        ini_sections(*final(conf)) == store_channels_spec(
            ini_sections(*old(conf)),
            channels_view(pool@).map_values(|c: crate::model::ChannelView| c.id),
        ),
{
    let ghost ids = channels_view(pool@).map_values(|c: crate::model::ChannelView| c.id);
    let ghost m0 = ini_sections(*conf);
    ini_delete(conf, channels_str());
    let n = pool.len();
    let mut i: usize = 0;
    while i < n
        invariant
            n == pool@.len(),
            ids.len() == n,
            ids == channels_view(pool@).map_values(|c: crate::model::ChannelView| c.id),
            i <= n,
            i == 0 ==> ini_sections(*conf) == m0.remove(Some(channels_section())),
            i > 0 ==> ini_sections(*conf) == m0.remove(Some(channels_section())).insert(
                Some(channels_section()),
                channel_entries(ids.take(i as int)),
            ),
        decreases n - i,
    {
        assert(i + 1 <= usize::MAX);
        let key = channel_key_string(i + 1);
        proof {
            let before = section_entries(ini_sections(*conf), channels_section());
            assert(before == channel_entries(ids.take(i as int)));
            lemma_channel_entries_lack_key(ids.take(i as int), (i + 1) as nat);
            lemma_without_absent_key(before, channel_key((i + 1) as nat));
            assert(channel_entries(ids.take(i + 1)) =~= channel_entries(ids.take(i as int)).push(
                (channel_key((i + 1) as nat), ids[i as int]),
            ));
        }
        ini_set(conf, channels_str(), key.as_str(), pool[i].id.as_str());
        proof {
            assert(pool@[i as int].id@ == ids[i as int]);
            assert(ini_sections(*conf) =~= m0.remove(Some(channels_section())).insert(
                Some(channels_section()),
                channel_entries(ids.take(i + 1)),
            ));
        }
        i = i + 1;
    }
    proof {
        assert(ids.take(n as int) =~= ids);
    }
}

/// The channel ids saved under `[Channels]`, in their order.
pub fn saved_channel_ids(conf: &Ini) -> (ids: Vec<String>)
    ensures
        ids@.map_values(|s: String| s@) == section_entries(ini_sections(*conf), channels_section()).map_values(
            |e: (Seq<char>, Seq<char>)| e.1,
        ),
{
    ini_section_values(conf, channels_str())
}

/// No entry of a list without `key` is removed by removing `key`.
proof fn lemma_without_absent_key(e: Entries, key: Seq<char>)
    requires
        forall|i: int| 0 <= i < e.len() ==> #[trigger] e[i].0 != key,
    ensures
        without_key(e, key) == e,
    decreases e.len(),
{
    if e.len() > 0 {
        lemma_without_absent_key(e.drop_last(), key);
        assert(e.drop_last().push(e.last()) =~= e);
    }
}

/// Decimal notations of different numbers differ.
proof fn lemma_decimal_injective(a: nat, b: nat)
    requires
        decimal(a) == decimal(b),
    ensures
        a == b,
    decreases a,
{
    lemma_decimal_nonempty(a);
    lemma_decimal_nonempty(b);
    if a < 10 && b < 10 {
        assert(decimal(a) == seq![digit_char(a)]);
        assert(decimal(b) == seq![digit_char(b)]);
        assert(seq![digit_char(a)][0] == digit_char(a));
        assert(seq![digit_char(b)][0] == digit_char(b));
        assert(decimal(a)[0] == decimal(b)[0]);
        lemma_digit_char(a);
        lemma_digit_char(b);
        assert(digit_char(a) == digit_char(b));
    } else if a < 10 {
        lemma_decimal_nonempty(b / 10);
        assert(decimal(b).len() >= 2);
    } else if b < 10 {
        lemma_decimal_nonempty(a / 10);
        assert(decimal(a).len() >= 2);
    } else {
        assert(decimal(a) == decimal(a / 10).push(digit_char(a % 10)));
        assert(decimal(b) == decimal(b / 10).push(digit_char(b % 10)));
        assert(decimal(a).last() == digit_char(a % 10));
        assert(decimal(b).last() == digit_char(b % 10));
        lemma_digit_char(a % 10);
        lemma_digit_char(b % 10);
        assert(a % 10 == b % 10);
        assert(decimal(a).drop_last() =~= decimal(a / 10));
        assert(decimal(b).drop_last() =~= decimal(b / 10));
        lemma_decimal_injective(a / 10, b / 10);
        assert(a == 10 * (a / 10) + a % 10);
        assert(b == 10 * (b / 10) + b % 10);
    }
}

proof fn lemma_digit_char(d: nat)
    requires
        d < 10,
    ensures
        digit_char(d) as int == 48 + d,
{
}

proof fn lemma_decimal_nonempty(n: nat)
    ensures
        decimal(n).len() >= 1,
    decreases n,
{
    if n >= 10 {
        lemma_decimal_nonempty(n / 10);
    }
}

/// The entries saved for the first channels use keys other than that of a later one.
proof fn lemma_channel_entries_lack_key(ids: Seq<Seq<char>>, n: nat)
    requires
        ids.len() < n,
    ensures
        forall|i: int| 0 <= i < channel_entries(ids).len() ==> #[trigger] channel_entries(ids)[i].0
            != channel_key(n),
{
    assert forall|i: int| 0 <= i < channel_entries(ids).len() implies #[trigger] channel_entries(
        ids,
    )[i].0 != channel_key(n) by {
        if channel_key((i + 1) as nat) == channel_key(n) {
            let p = seq!['c', 'h', 'a', 'n', 'n', 'e', 'l'];
            assert(channel_key((i + 1) as nat).skip(7) =~= decimal((i + 1) as nat));
            assert(channel_key(n).skip(7) =~= decimal(n));
            lemma_decimal_injective((i + 1) as nat, n);
        }
    }
}

} // verus!
