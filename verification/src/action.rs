//! HTTP methods and the actions they stand for.
//!
//! A permission record grants one action (or all of them), and an inbound
//! request performs the action its HTTP method maps to: GET reads, POST
//! creates, PUT updates, DELETE deletes. The method name is compared without
//! regard to ASCII case; any other method is an internal error, which callers
//! resolve to a deny.

use vstd::prelude::*;

verus! {

/// The operation a request performs or a permission record grants.
/// `Any` stands for the `*` action of a record, which grants every operation.
#[derive(Clone, Copy, Debug, PartialEq, Eq, Structural)]
pub enum Action {
    Read,
    Create,
    Update,
    Delete,
    Any,
}

/// Error of the authorization core: the defensive internal-error path for a
/// method outside the fixed, validated set.
#[derive(Clone, Copy, Debug, PartialEq, Eq, Structural)]
pub enum AuthError {
    InvalidMethod,
}

/// Code point of `c` with an ASCII upper-case letter folded to lower case.
pub open spec fn lower_code(c: char) -> int {
    if 65 <= c as int && c as int <= 90 {
        c as int + 32
    } else {
        c as int
    }
}

/// `a` and `b` are the same string up to ASCII case.
pub open spec fn eq_ignore_ascii_case(a: Seq<char>, b: Seq<char>) -> bool {
    &&& a.len() == b.len()
    &&& forall|i: int| 0 <= i < a.len() ==> lower_code(a[i]) == lower_code(b[i])
}

/// The action a method name stands for: GET maps to `Read`, POST to `Create`,
/// PUT to `Update`, DELETE to `Delete`, each without regard to ASCII case;
/// nothing else maps.
pub open spec fn method_action(m: Seq<char>) -> Option<Action> {
    if eq_ignore_ascii_case(m, seq!['g', 'e', 't']) {
        Some(Action::Read)
    } else if eq_ignore_ascii_case(m, seq!['p', 'o', 's', 't']) {
        Some(Action::Create)
    } else if eq_ignore_ascii_case(m, seq!['p', 'u', 't']) {
        Some(Action::Update)
    } else if eq_ignore_ascii_case(m, seq!['d', 'e', 'l', 'e', 't', 'e']) {
        Some(Action::Delete)
    } else {
        None
    }
}

/// Code point of `c` with an upper-case ASCII letter folded to lower case.
fn lower_code_of(c: char) -> (r: u32)
    ensures
        r == lower_code(c),
{
    let u = c as u32;
    if 65 <= u && u <= 90 {
        u + 32
    } else {
        u
    }
}

/// Whether `m` equals `name` up to ASCII case.
fn str_eq_ignore_ascii_case(m: &str, name: &str) -> (r: bool)
    ensures
        r == eq_ignore_ascii_case(m@, name@),
{
    let m_len = m.unicode_len();
    let n_len = name.unicode_len();
    if m_len != n_len {
        return false;
    }
    let mut i: usize = 0;
    while i < m_len
        invariant
            0 <= i <= m_len,
            m_len == m@.len(),
            m_len == name@.len(),
            forall|j: int| 0 <= j < i ==> lower_code(m@[j]) == lower_code(name@[j]),
        decreases m_len - i,
    {
        if lower_code_of(m.get_char(i)) != lower_code_of(name.get_char(i)) {
            return false;
        }
        i += 1;
    }
    true
}

/// Maps an HTTP method to the action it performs: exactly GET to `Read`,
/// POST to `Create`, PUT to `Update` and DELETE to `Delete`, without regard
/// to ASCII case. Every other method value takes the internal-error path.
pub fn method_to_action(method: &str) -> (r: Result<Action, AuthError>)
    ensures
        method_action(method@) matches Some(a) ==> r == Ok::<Action, AuthError>(a),
        method_action(method@) is None ==> r == Err::<Action, AuthError>(AuthError::InvalidMethod),
{
    proof {
        reveal_strlit("get");
        reveal_strlit("post");
        reveal_strlit("put");
        reveal_strlit("delete");
    }
    if str_eq_ignore_ascii_case(method, "get") {
        Ok(Action::Read)
    } else if str_eq_ignore_ascii_case(method, "post") {
        Ok(Action::Create)
    } else if str_eq_ignore_ascii_case(method, "put") {
        Ok(Action::Update)
    } else if str_eq_ignore_ascii_case(method, "delete") {
        Ok(Action::Delete)
    } else {
        Err(AuthError::InvalidMethod)
    }
}

} // verus!
