//! The line protocol spoken with the chat server: every signal is one line of
//! text ended by a newline, and the server pushes signal names back the same way.
use vstd::prelude::*;
use crate::text::{contains, is_substring};

verus! {

/// The requests a client announces to the server before sending their data.
#[derive(Clone, Copy, PartialEq, Eq, Structural, Debug)]
pub enum Signal {
    UpdateUsers,
    UpdateChat,
    Disconnect,
    ChatMsg,
    IntChat,
    Connect,
    AddChannel,
}

/// The words of the protocol, as character sequences.
pub open spec fn signal_text(s: Signal) -> Seq<char> {
    match s {
        Signal::UpdateUsers => seq!['U', 'P', 'D', 'A', 'T', 'E', 'U', 'S', 'E', 'R', 'S'],
        Signal::UpdateChat => seq!['U', 'P', 'D', 'A', 'T', 'E', 'C', 'H', 'A', 'T'],
        Signal::Disconnect => seq!['D', 'I', 'S', 'C', 'O', 'N', 'N', 'E', 'C', 'T'],
        Signal::ChatMsg => seq!['C', 'H', 'A', 'T', 'M', 'S', 'G'],
        Signal::IntChat => seq!['I', 'N', 'T', 'C', 'H', 'A', 'T'],
        Signal::Connect => seq!['C', 'O', 'N', 'N', 'E', 'C', 'T'],
        Signal::AddChannel => seq!['A', 'D', 'D', 'C', 'H', 'A', 'N', 'N', 'E', 'L'],
    }
}

impl Signal {
    /// The word that announces this request.
    pub fn text(&self) -> (t: &'static str)
        ensures
            t@ == signal_text(*self),
    {
        match self {
            Signal::UpdateUsers => {
                proof {
                    reveal_strlit("UPDATEUSERS");
                }
                let t = "UPDATEUSERS";
                assert(t@ =~= signal_text(*self));
                t
            },
            Signal::UpdateChat => {
                proof {
                    reveal_strlit("UPDATECHAT");
                }
                let t = "UPDATECHAT";
                assert(t@ =~= signal_text(*self));
                t
            },
            Signal::Disconnect => {
                proof {
                    reveal_strlit("DISCONNECT");
                }
                let t = "DISCONNECT";
                assert(t@ =~= signal_text(*self));
                t
            },
            Signal::ChatMsg => {
                proof {
                    reveal_strlit("CHATMSG");
                }
                let t = "CHATMSG";
                assert(t@ =~= signal_text(*self));
                t
            },
            Signal::IntChat => {
                proof {
                    reveal_strlit("INTCHAT");
                }
                let t = "INTCHAT";
                assert(t@ =~= signal_text(*self));
                t
            },
            Signal::Connect => {
                proof {
                    reveal_strlit("CONNECT");
                }
                let t = "CONNECT";
                assert(t@ =~= signal_text(*self));
                t
            },
            Signal::AddChannel => {
                proof {
                    reveal_strlit("ADDCHANNEL");
                }
                let t = "ADDCHANNEL";
                assert(t@ =~= signal_text(*self));
                t
            },
        }
    }
}

/// The text `s` followed by a newline.
pub open spec fn line_of(s: Seq<char>) -> Seq<char> {
    s.push('\n')
}

/// A newline as a one-character text.
pub fn newline() -> (t: &'static str)
    ensures
        t@ == seq!['\n'],
{
    proof {
        reveal_strlit("\n");
    }
    let t = "\n";
    assert(t@ =~= seq!['\n']);
    t
}

/// The line that sends `signal` to the server.
pub fn signal_line(signal: &str) -> (line: String)
    ensures
        line@ == line_of(signal@),
{
    let mut line = signal.to_owned();
    line.append(newline());
    assert(line@ =~= line_of(signal@));
    line
}

/// A received line with its last character (the line end) removed;
/// an empty line stays empty.
pub open spec fn strip_line_end(line: Seq<char>) -> Seq<char> {
    if line.len() > 0 {
        line.drop_last()
    } else {
        line
    }
}

/// The signal carried by a line read from the server.
pub fn strip_signal_line(line: &str) -> (signal: String)
    ensures
        signal@ == strip_line_end(line@),
{
    let n = line.unicode_len();
    if n == 0 {
        line.to_owned()
    } else {
        let head = line.substring_char(0, n - 1);
        let r = head.to_owned();
        assert(r@ =~= strip_line_end(line@));
        r
    }
}

/// What a signal pushed by the server asks the client to do.
#[derive(Clone, Copy, PartialEq, Eq, Structural, Debug)]
pub enum Notice {
    /// The member list of the current channel changed.
    UpdateUsers,
    /// New chat messages are waiting.
    UpdateChat,
    /// Anything else, which the client ignores.
    Ignored,
}

/// How a pushed signal is understood: a mention of the member update comes
/// first, then a mention of the chat update.
pub open spec fn notice_of(key: Seq<char>) -> Notice {
    if is_substring(signal_text(Signal::UpdateUsers), key) {
        Notice::UpdateUsers
    } else if is_substring(signal_text(Signal::UpdateChat), key) {
        Notice::UpdateChat
    } else {
        Notice::Ignored
    }
}

/// Classifies a signal pushed by the server.
pub fn classify_notice(key: &str) -> (n: Notice)
    ensures
        n == notice_of(key@),
{
    if contains(key, Signal::UpdateUsers.text()) {
        Notice::UpdateUsers
    } else if contains(key, Signal::UpdateChat.text()) {
        Notice::UpdateChat
    } else {
        Notice::Ignored
    }
}


/// A reply buffer that the server left untouched: every byte is zero.
pub open spec fn all_zero(buf: Seq<u8>) -> bool {
    forall|i: int| 0 <= i < buf.len() ==> buf[i] == 0
}

/// Whether the server wrote nothing into `buf`.
pub fn is_only_zeros(buf: &[u8]) -> (r: bool)
    ensures
        r == all_zero(buf@),
{
    let mut i: usize = 0;
    while i < buf.len()
        invariant
            i <= buf@.len(),
            forall|k: int| 0 <= k < i ==> buf@[k] == 0,
        decreases buf@.len() - i,
    {
        if buf[i] != 0 {
            return false;
        }
        i = i + 1;
    }
    true
}

} // verus!
