use vstd::prelude::*;

use crate::hex::{hex_bytes, is_hex_text, parse_mac};

verus! {

/// Where a message arrived.
#[derive(Debug, Clone, Copy, PartialEq, Eq, Structural)]
pub enum Channel {
    /// A direct conversation with the bot.
    Private,
    /// A channel shared by several people.
    Group,
}

/// What the relay does with one inbound message.
#[derive(Debug, PartialEq, Eq)]
pub enum Action {
    /// Nothing: no reply, no handler.
    Ignore,
    /// Report the public address, refreshing it first when `force` is set.
    ReportIp { force: bool },
    /// Send a wake packet to this MAC address.
    Wake([u8; 6]),
    /// Probe the reachability of this host, handed over as one argument.
    Probe(String),
    /// Send this reply and do nothing else.
    Reply(String),
}

/// An action as a mathematical value.
pub enum Plan {
    Ignore,
    ReportIp(bool),
    Wake(Seq<u8>),
    Probe(Seq<char>),
    Reply(Seq<char>),
}

impl View for Action {
    type V = Plan;

    open spec fn view(&self) -> Plan {
        match self {
            Action::Ignore => Plan::Ignore,
            Action::ReportIp { force } => Plan::ReportIp(*force),
            Action::Wake(mac) => Plan::Wake(mac@),
            Action::Probe(target) => Plan::Probe(target@),
            Action::Reply(text) => Plan::Reply(text@),
        }
    }
}

/// Separators between a command's name and its argument.
pub open spec fn is_space(c: char) -> bool {
    c == ' ' || c == '\t' || c == '\n' || c == '\r'
}

/// The index of the first separator at or after `i`, or the length.
pub open spec fn word_end(s: Seq<char>, i: int) -> int
    decreases s.len() - i,
{
    if i < 0 || i >= s.len() || is_space(s[i]) {
        i
    } else {
        word_end(s, i + 1)
    }
}

/// The index of the first non-separator at or after `i`, or the length.
pub open spec fn skip_spaces(s: Seq<char>, i: int) -> int
    decreases s.len() - i,
{
    if i < 0 || i >= s.len() || !is_space(s[i]) {
        i
    } else {
        skip_spaces(s, i + 1)
    }
}

/// The end of `s[lo..j]` once trailing separators are dropped.
pub open spec fn drop_trailing(s: Seq<char>, lo: int, j: int) -> int
    decreases j - lo,
{
    if j <= lo || j > s.len() || !is_space(s[j - 1]) {
        j
    } else {
        drop_trailing(s, lo, j - 1)
    }
}

/// `s` without leading and trailing separators.
pub open spec fn trimmed(s: Seq<char>) -> Seq<char> {
    let lo = skip_spaces(s, 0);
    s.subrange(lo, drop_trailing(s, lo, s.len() as int))
}

/// The command name of a message: what follows the `!` up to the first separator.
pub open spec fn command_name(s: Seq<char>) -> Seq<char> {
    s.subrange(1, word_end(s, 1))
}

/// The argument of a command: the rest of the message, trimmed.
pub open spec fn command_argument(s: Seq<char>) -> Seq<char> {
    trimmed(s.subrange(word_end(s, 1), s.len() as int))
}

/// The reply to a `wake` argument that is not a MAC address.
pub open spec fn bad_mac_text() -> Seq<char> {
    "Could not parse mac"@
}

/// What the relay does with a message from `sender` on `channel` holding `content`.
pub open spec fn plan_of(operator: u64, sender: u64, channel: Channel, content: Seq<char>) -> Plan {
    if sender != operator || channel != Channel::Private {
        Plan::Ignore
    } else if content.len() == 0 || content[0] != '!' {
        Plan::Ignore
    } else {
        let name = command_name(content);
        let arg = command_argument(content);
        if name == "ip"@ {
            Plan::ReportIp(arg == "force"@)
        } else if name == "wake"@ {
            if is_hex_text(arg) && arg.len() == 12 {
                Plan::Wake(hex_bytes(arg))
            } else {
                Plan::Reply(bad_mac_text())
            }
        } else if name == "ping"@ {
            Plan::Probe(arg)
        } else {
            Plan::Ignore
        }
    }
}

/// Whether two texts hold the same characters.
fn same_text(a: &str, b: &str) -> (r: bool)
    ensures
        r == (a@ == b@),
{
    let n = a.unicode_len();
    if n != b.unicode_len() {
        return false;
    }
    let mut i: usize = 0;
    while i < n
        invariant
            n == a@.len(),
            n == b@.len(),
            i <= n,
            forall|j: int| 0 <= j < i ==> a@[j] == b@[j],
        decreases n - i,
    {
        if a.get_char(i) != b.get_char(i) {
            return false;
        }
        i = i + 1;
    }
    assert(a@ =~= b@);
    true
}

fn is_separator(c: char) -> (r: bool)
    ensures
        r == is_space(c),
{
    c == ' ' || c == '\t' || c == '\n' || c == '\r'
}

/// Splits a message that starts with `!` into its command name and argument.
fn split_command(s: &str) -> (r: (&str, &str))
    requires
        s@.len() >= 1,
    ensures
        r.0@ == command_name(s@),
        r.1@ == command_argument(s@),
{
    let n = s.unicode_len();
    let mut e: usize = 1;
    while e < n && !is_separator(s.get_char(e))
        invariant
            1 <= e <= n,
            n == s@.len(),
            word_end(s@, e as int) == word_end(s@, 1),
        decreases n - e,
    {
        e = e + 1;
    }
    let name = s.substring_char(1, e);
    let rest = s.substring_char(e, n);
    let ghost t = rest@;
    let m = rest.unicode_len();
    let mut lo: usize = 0;
    while lo < m && is_separator(rest.get_char(lo))
        invariant
            lo <= m,
            t == rest@,
            m == t.len(),
            skip_spaces(t, lo as int) == skip_spaces(t, 0),
        decreases m - lo,
    {
        lo = lo + 1;
    }
    let mut hi: usize = m;
    while hi > lo && is_separator(rest.get_char(hi - 1))
        invariant
            lo <= hi <= m,
            t == rest@,
            m == t.len(),
            lo == skip_spaces(t, 0),
            drop_trailing(t, lo as int, hi as int) == drop_trailing(t, lo as int, m as int),
        decreases hi,
    {
        hi = hi - 1;
    }
    (name, rest.substring_char(lo, hi))
}

/// The relay's rules for inbound messages. Only the operator, writing in
/// private, reaches a command.
#[derive(Debug, Clone, Copy, PartialEq, Eq, Structural)]
pub struct Dispatcher {
    pub operator: u64,
}

impl Dispatcher {
    /// A dispatcher that accepts commands from `operator` alone.
    pub fn new(operator: u64) -> (r: Dispatcher)
        ensures
            r.operator == operator,
    {
        Dispatcher { operator }
    }

    /// Decides what to do with a message from `sender` on `channel`.
    pub fn dispatch(&self, sender: u64, channel: Channel, content: &str) -> (r: Action)
        ensures
            r@ == plan_of(self.operator, sender, channel, content@),
    {
        if sender != self.operator || channel != Channel::Private {
            return Action::Ignore;
        }
        if content.unicode_len() == 0 || content.get_char(0) != '!' {
            return Action::Ignore;
        }
        let (name, arg) = split_command(content);
        if same_text(name, "ip") {
            Action::ReportIp { force: same_text(arg, "force") }
        } else if same_text(name, "wake") {
            match parse_mac(arg) {
                Ok(mac) => Action::Wake(mac),
                Err(_) => Action::Reply(String::from_str("Could not parse mac")),
            }
        } else if same_text(name, "ping") {
            Action::Probe(String::from_str(arg))
        } else {
            Action::Ignore
        }
    }
}

/// A message from anyone but the operator, or from a group channel, is
/// ignored whatever it holds: no reply and no handler.
pub proof fn lemma_unauthorized_ignored(
    operator: u64,
    sender: u64,
    channel: Channel,
    content: Seq<char>,
)
    requires
        sender != operator || channel == Channel::Group,
    ensures
        plan_of(operator, sender, channel, content) == Plan::Ignore,
{
}

} // verus!
