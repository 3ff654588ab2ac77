//! Which of the accounts that the browsers are logged into is used.

use crate::text::same_text;
use vstd::prelude::*;

verus! {

/// One account that a browser is logged into.
#[derive(Clone, Debug, PartialEq, Eq)]
pub struct Login {
    pub username: String,
    /// The address of the account's collection.
    pub collection_link: String,
}

/// The decision on the account.
#[derive(Clone, Copy, Debug, PartialEq, Eq, Structural)]
pub enum LoginChoice {
    /// The login at this place is used.
    Chosen(usize),
    /// No browser is logged in.
    NotLoggedIn,
    /// The only login is that of another account than was asked for.
    OtherAccount,
    /// There are several logins and none was asked for.
    Ambiguous,
    /// There are several logins, none of them of the account asked for.
    UnknownAccount,
}

/// Whether one of the names is this one.
pub open spec fn is_among(names: Seq<Seq<char>>, name: Seq<char>) -> bool {
    exists|i: int| 0 <= i < names.len() && #[trigger] names[i] == name
}

/// Whether name `i` is the first that is this one.
pub open spec fn first_named_at(names: Seq<Seq<char>>, name: Seq<char>, i: int) -> bool {
    &&& 0 <= i < names.len()
    &&& names[i] == name
    &&& forall|j: int| 0 <= j < i ==> #[trigger] names[j] != name
}

/// The decision: the account that was asked for where a browser is logged
/// into it, the only account where none was asked for, and otherwise the
/// reason why no account can be used.
pub open spec fn login_choice(wanted: Option<Seq<char>>, names: Seq<Seq<char>>) -> LoginChoice {
    if names.len() == 0 {
        LoginChoice::NotLoggedIn
    } else {
        match wanted {
            None => if names.len() == 1 {
                LoginChoice::Chosen(0)
            } else {
                LoginChoice::Ambiguous
            },
            Some(name) => if is_among(names, name) {
                LoginChoice::Chosen((choose|i: int| first_named_at(names, name, i)) as usize)
            } else if names.len() == 1 {
                LoginChoice::OtherAccount
            } else {
                LoginChoice::UnknownAccount
            },
        }
    }
}

/// The names of the accounts of some logins.
pub open spec fn usernames(logins: Seq<Login>) -> Seq<Seq<char>> {
    Seq::new(logins.len(), |i: int| logins[i].username@)
}

/// The account that was asked for, as a mathematical value.
pub open spec fn wanted_name(username: Option<&str>) -> Option<Seq<char>> {
    match username {
        Some(name) => Some(name@),
        None => None,
    }
}

/// Decides which login is used.
pub fn choose_login(username: Option<&str>, logins: &Vec<Login>) -> (choice: LoginChoice)
    ensures
        choice == login_choice(wanted_name(username), usernames(logins@)),
{
    let ghost names = usernames(logins@);
    if logins.len() == 0 {
        return LoginChoice::NotLoggedIn;
    }
    match username {
        None => {
            if logins.len() == 1 {
                LoginChoice::Chosen(0)
            } else {
                LoginChoice::Ambiguous
            }
        },
        Some(name) => {
            let mut i: usize = 0;
            while i < logins.len()
                invariant
                    i <= logins.len(),
                    username == Some(name),
                    names == usernames(logins@),
                    forall|j: int| 0 <= j < i ==> #[trigger] names[j] != name@,
                decreases logins.len() - i,
            {
                if same_text(logins[i].username.as_str(), name) {
                    proof {
                        assert(names[i as int] == name@);
                        assert(first_named_at(names, name@, i as int));
                        let chosen = choose|k: int| first_named_at(names, name@, k);
                        assert(first_named_at(names, name@, chosen));
                        if chosen < i {
                            assert(names[chosen] != name@);
                        }
                        if i < chosen {
                            assert(names[i as int] != name@);
                        }
                    }
                    return LoginChoice::Chosen(i);
                }
                i += 1;
            }
            if logins.len() == 1 {
                LoginChoice::OtherAccount
            } else {
                LoginChoice::UnknownAccount
            }
        },
    }
}

} // verus!
