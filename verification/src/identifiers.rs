//! Matrix user ids.

use crate::text;
use vstd::prelude::*;

verus! {

/// `ruma::UserId::parse` accepts `text` as a Matrix user id.
pub uninterp spec fn user_id_parses(text: Seq<char>) -> bool;

/// The server that a user id is of: what follows its first colon.
pub open spec fn server_name(text: Seq<char>) -> Seq<char> {
    text.skip(text::before_first(text, ':').len() as int + 1)
}

/// A sigil, a localpart, a colon and a server name without underscores.
pub open spec fn has_user_id_form(text: Seq<char>) -> bool {
    &&& text.len() > 0
    &&& text[0] == '@'
    &&& text.contains(':')
    &&& !server_name(text).contains('_')
}

/// Calls `ruma::UserId::parse`: whether `text` is a Matrix user id. The grammar of user ids is the
/// business of `ruma`, and goes by the name `user_id_parses`. Of it only this is said: a user id
/// begins with `@` and has a colon, and the server name after the first colon, which is made of
/// letters, digits, hyphens and dots or is an IPv6 address, and may have a port, has no underscore.
#[verifier::external_body]
fn is_user_id(text: &str) -> (yes: bool)
    ensures
        yes == user_id_parses(text@),
        yes ==> has_user_id_form(text@),
{
    ruma::UserId::parse(text).is_ok()
}

/// A Matrix user id.
#[derive(Debug)]
pub struct UserId {
    text: String,
}

impl View for UserId {
    type V = Seq<char>;

    closed spec fn view(&self) -> Seq<char> {
        self.text@
    }
}

impl Clone for UserId {
    fn clone(&self) -> (user_id: Self)
        ensures
            user_id@ == self@,
    {
        proof {
            use_type_invariant(self);
        }
        UserId { text: self.text.clone() }
    }
}

impl UserId {
    /// The text is a user id.
    #[verifier::type_invariant]
    spec fn wf(self) -> bool {
        user_id_parses(self.text@) && has_user_id_form(self.text@)
    }

    /// The user id that `text` is, if it is one.
    pub fn parse(text: &str) -> (user_id: Option<UserId>)
        ensures
            match user_id {
                Some(user_id) => user_id_parses(text@) && user_id@ == text@ && has_user_id_form(
                    text@,
                ),
                None => !user_id_parses(text@),
            },
    {
        if is_user_id(text) {
            Some(UserId { text: text.to_owned() })
        } else {
            None
        }
    }

    /// The text of the user id.
    pub fn as_str(&self) -> (text: &str)
        ensures
            text@ == self@,
            user_id_parses(text@),
            has_user_id_form(text@),
    {
        proof {
            use_type_invariant(self);
        }
        self.text.as_str()
    }
}

} // verus!
