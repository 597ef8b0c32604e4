//! Contacts and chats as the application sees them: identifiers,
//! display names, and the phone number a JID carries.

use vstd::prelude::*;

verus! {

/// Contact information.
#[derive(Debug, Clone)]
pub struct Contact {
    /// The full JID, such as a phone number at a host.
    pub jid: String,
    /// The phone number taken out of the JID.
    pub phone: String,
    /// Display name, when known.
    pub name: Option<String>,
}

/// Chat information: where a message lives.
#[derive(Debug, Clone)]
pub enum Chat {
    /// A one-on-one chat.
    Private { jid: String, name: Option<String> },
    /// A group chat.
    Group { jid: String, name: Option<String>, participant_count: Option<u32> },
    /// A broadcast list.
    Broadcast { jid: String },
    /// Status stories.
    Status { jid: String },
}

/// How many leading characters of a JID belong to the phone number:
/// everything before the first `@`, or all of it when there is none.
pub open spec fn phone_len(s: Seq<char>) -> int
    decreases s.len(),
{
    if s.len() == 0 {
        0
    } else if s[0] == '@' {
        0
    } else {
        1 + phone_len(s.drop_first())
    }
}

/// The phone number part of a JID.
pub open spec fn spec_extract_phone(s: Seq<char>) -> Seq<char> {
    s.take(phone_len(s))
}

/// The phone prefix ends exactly at the first `@`.
proof fn lemma_phone_len_at(s: Seq<char>, i: int)
    requires
        0 <= i <= s.len(),
        forall|k: int| 0 <= k < i ==> s[k] != '@',
        i < s.len() ==> s[i] == '@',
    ensures
        phone_len(s) == i,
    decreases i,
{
    if i == 0 {
    } else {
        assert(s[0] != '@');
        lemma_phone_len_at(s.drop_first(), i - 1);
    }
}

/// Extract the phone number from a JID: the part before the first
/// `@`, or the whole JID when it has none.
pub fn extract_phone(jid: &str) -> (r: String)
    ensures
        r@ == spec_extract_phone(jid@),
{
    let n = jid.unicode_len();
    let mut i: usize = 0;
    while i < n
        invariant
            n == jid@.len(),
            i <= n,
            forall|k: int| 0 <= k < i ==> jid@[k] != '@',
        decreases n - i,
    {
        if jid.get_char(i) == '@' {
            proof {
                lemma_phone_len_at(jid@, i as int);
            }
            let p = jid.substring_char(0, i);
            return p.to_owned();
        }
        i = i + 1;
    }
    proof {
        lemma_phone_len_at(jid@, n as int);
        assert(jid@.take(n as int) =~= jid@);
    }
    jid.to_owned()
}

impl Chat {
    /// The JID a chat variant carries.
    pub open spec fn spec_jid(&self) -> Seq<char> {
        match self {
            Chat::Private { jid, .. } => jid@,
            Chat::Group { jid, .. } => jid@,
            Chat::Broadcast { jid } => jid@,
            Chat::Status { jid } => jid@,
        }
    }

    /// The display name a chat shows: its name when it has one, the
    /// phone number of its JID otherwise; broadcast lists carry a
    /// prefix, status chats a fixed label.
    pub open spec fn spec_display_name(&self) -> Seq<char> {
        match self {
            Chat::Private { jid, name } => match name {
                Some(n) => n@,
                None => spec_extract_phone(jid@),
            },
            Chat::Group { jid, name, .. } => match name {
                Some(n) => n@,
                None => spec_extract_phone(jid@),
            },
            Chat::Broadcast { jid } => "Broadcast: "@ + spec_extract_phone(jid@),
            Chat::Status { .. } => "Status"@,
        }
    }

    /// Get the JID of the chat.
    pub fn jid(&self) -> (r: &str)
        ensures
            r@ == self.spec_jid(),
    {
        match self {
            Chat::Private { jid, .. } => jid.as_str(),
            Chat::Group { jid, .. } => jid.as_str(),
            Chat::Broadcast { jid } => jid.as_str(),
            Chat::Status { jid } => jid.as_str(),
        }
    }

    /// Whether this is a group chat.
    pub fn is_group(&self) -> (r: bool)
        ensures
            r == (self matches Chat::Group { .. }),
    {
        match self {
            Chat::Group { .. } => true,
            _ => false,
        }
    }

    /// The display name of the chat.
    pub fn display_name(&self) -> (r: String)
        ensures
            r@ == self.spec_display_name(),
    {
        match self {
            Chat::Private { jid, name } => match name {
                Some(n) => n.clone(),
                None => extract_phone(jid.as_str()),
            },
            Chat::Group { jid, name, .. } => match name {
                Some(n) => n.clone(),
                None => extract_phone(jid.as_str()),
            },
            Chat::Broadcast { jid } => {
                let prefix = String::from_str("Broadcast: ");
                prefix.concat(extract_phone(jid.as_str()).as_str())
            },
            Chat::Status { .. } => String::from_str("Status"),
        }
    }
}

impl Contact {
    /// The display name of a contact: its name when known, its phone
    /// number otherwise.
    pub open spec fn spec_display_name(&self) -> Seq<char> {
        match self.name {
            Some(n) => n@,
            None => self.phone@,
        }
    }

    /// Get the display name, falling back to the phone number.
    pub fn display_name(&self) -> (r: &str)
        ensures
            r@ == self.spec_display_name(),
    {
        match &self.name {
            Some(n) => n.as_str(),
            None => self.phone.as_str(),
        }
    }
}

} // verus!
