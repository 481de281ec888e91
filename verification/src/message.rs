//! Inbound chat records, resolved identities, and command-syntax parsing.

use vstd::prelude::*;
use vstd::string::*;

verus! {

/// A user record resolved from the external directory service, keyed by the
/// chat channel id of the sender.  Nothing here is persisted.
pub struct Identity {
    pub channel_id: String,
}

/// One inbound chat message after identity resolution: the raw text, the
/// resolved sender, and — when the text matches command syntax — the command
/// name it invokes.
pub struct Message {
    pub command_name: String,
    pub message: String,
    pub user: Identity,
    pub has_command_info: bool,
}

/// Index of the first space at or after position `i`, or the length of the
/// text when no space follows.  The command name of a command-syntax text
/// runs from position 1 up to this boundary.
pub open spec fn name_end(s: Seq<char>, i: int) -> int
    decreases s.len() - i,
{
    if i < 0 || i >= s.len() {
        s.len() as int
    } else if s[i] == ' ' {
        i
    } else {
        name_end(s, i + 1)
    }
}

/// Command syntax: a leading `'!'` immediately followed by a nonempty name.
pub open spec fn is_command_text(s: Seq<char>) -> bool {
    s.len() >= 2 && s[0] == '!' && s[1] != ' '
}

/// The command name of a command-syntax text: everything between the leading
/// `'!'` and the first space (or the end of the text).
pub open spec fn spec_command_name(s: Seq<char>) -> Seq<char> {
    s.subrange(1, name_end(s, 1))
}

pub proof fn lemma_name_end_bounds(s: Seq<char>, i: int)
    requires
        0 <= i <= s.len(),
    ensures
        i <= name_end(s, i) <= s.len(),
    decreases s.len() - i,
{
    if i < s.len() && s[i] != ' ' {
        lemma_name_end_bounds(s, i + 1);
    }
}

/// Extract the command name from a chat text, or report that the text does
/// not match command syntax.
pub fn parse_command_name(text: &str) -> (r: Option<String>)
    ensures
        r is Some <==> is_command_text(text@),
        r matches Some(name) ==> name@ == spec_command_name(text@),
{
    let n = text.unicode_len();
    if n < 2 {
        return None;
    }
    if text.get_char(0) != '!' {
        return None;
    }
    if text.get_char(1) == ' ' {
        return None;
    }
    let mut i: usize = 1;
    while i < n && text.get_char(i) != ' '
        invariant
            1 <= i <= n,
            n == text@.len(),
            name_end(text@, 1) == name_end(text@, i as int),
        decreases n - i,
    {
        i = i + 1;
    }
    proof {
        lemma_name_end_bounds(text@, 1);
    }
    let name = text.substring_char(1, i).to_owned();
    Some(name)
}

impl Message {
    /// Build the per-message record the dispatcher consumes: parse the text
    /// for command syntax and attach the resolved sender.
    pub fn new(user: Identity, message: String) -> (m: Message)
        ensures
            m.user == user,
            m.message == message,
            m.has_command_info == is_command_text(message@),
            m.has_command_info ==> m.command_name@ == spec_command_name(message@),
            !m.has_command_info ==> m.command_name@ == Seq::<char>::empty(),
    {
        match parse_command_name(message.as_str()) {
            Some(name) => Message { command_name: name, message, user, has_command_info: true },
            None => Message {
                command_name: String::new(),
                message,
                user,
                has_command_info: false,
            },
        }
    }
}

} // verus!
