//! Messages for the user: a key of the message catalogue and its arguments. The text behind a key is
//! the catalogue's.
use crate::json::pair_views;
use crate::text::copy_text;
use vstd::prelude::*;

verus! {

/// A key of the message catalogue with named arguments.
pub struct Message {
    pub key: String,
    pub args: Vec<(String, String)>,
}

/// What a message says, as plain sequences.
#[verifier::ext_equal]
pub struct MessageView {
    pub key: Seq<char>,
    pub args: Seq<(Seq<char>, Seq<char>)>,
}

impl View for Message {
    type V = MessageView;

    open spec fn view(&self) -> MessageView {
        MessageView { key: self.key@, args: pair_views(self.args@) }
    }
}

/// Messages as plain sequences.
pub open spec fn message_views(v: Seq<Message>) -> Seq<MessageView> {
    Seq::new(v.len(), |i: int| v[i]@)
}

/// A message without arguments.
pub open spec fn message_of(key: Seq<char>) -> MessageView {
    MessageView { key, args: Seq::empty() }
}

impl MessageView {
    /// The message with one argument more.
    pub open spec fn with(self, name: Seq<char>, value: Seq<char>) -> MessageView {
        MessageView { key: self.key, args: self.args.push((name, value)) }
    }
}

impl Message {
    /// A message without arguments.
    pub fn new(key: &str) -> (r: Message)
        ensures
            r@ == message_of(key@),
    {
        let r = Message { key: copy_text(key), args: Vec::new() };
        assert(r@ =~= message_of(key@));
        r
    }

    /// The message with one argument more.
    pub fn arg(self, name: &str, value: &str) -> (r: Message)
        ensures
            r@ == self@.with(name@, value@),
    {
        let mut args = self.args;
        let ghost before = pair_views(args@);
        args.push((copy_text(name), copy_text(value)));
        assert(pair_views(args@) =~= before.push((name@, value@)));
        Message { key: self.key, args }
    }
}

/// A message holds its arguments in the order in which they were given, and keeps its key.
pub proof fn law_message_keeps_its_arguments(
    m: MessageView,
    key: Seq<char>,
    name: Seq<char>,
    value: Seq<char>,
)
    ensures
        message_of(key).key == key && message_of(key).args.len() == 0,
        m.with(name, value).key == m.key,
        m.with(name, value).args.len() == m.args.len() + 1,
        m.with(name, value).args.last() == (name, value),
        m.with(name, value).args.drop_last() == m.args,
{
    assert(m.with(name, value).args.drop_last() =~= m.args);
}

} // verus!
