//! Clone cells: a clone cell is named by its base cell's role id and the
//! index of the clone, as in `profiles.0`.

use crate::decimal::{
    decimal, lemma_decimal_digits, lemma_parse_decimal, parse_u32, parse_u32_decimal, push_decimal,
};
use vstd::prelude::*;
use vstd::string::*;

verus! {

/// The role id of a cell within an app.
pub type AppRoleId = String;

/// Delimiter in a clone id that separates the base cell's role id from the
/// clone index.
pub const CLONE_ID_DELIMITER: &'static str = ".";

/// Identifier of a clone cell, composed of the DNA's role id and the index
/// of the clone, starting at 0.
///
/// Example: `profiles.0`
#[derive(Clone, Debug, PartialEq, Eq, Hash)]
pub struct CloneId(pub String);

/// Whether `k` is the position of the last `.` in `s`.
pub open spec fn is_last_dot(s: Seq<char>, k: int) -> bool {
    &&& 0 <= k < s.len()
    &&& s[k] == '.'
    &&& forall|j: int| k < j < s.len() ==> s[j] != '.'
}

/// Whether `s` holds a `.`.
pub open spec fn has_dot(s: Seq<char>) -> bool {
    exists|k: int| 0 <= k < s.len() && s[k] == '.'
}

/// The position of the last `.` in `s` (where there is one).
pub open spec fn last_dot(s: Seq<char>) -> int {
    choose|k: int| is_last_dot(s, k)
}

/// The text before the last `.` of a clone id: the base cell's role id.
pub open spec fn base_part(s: Seq<char>) -> Seq<char> {
    s.take(last_dot(s))
}

/// The text after the last `.` of a clone id: the clone index.
pub open spec fn index_part(s: Seq<char>) -> Seq<char> {
    s.skip(last_dot(s) + 1)
}

/// Whether a clone id's text can be read: it holds a `.`, and the text after
/// the last one reads as a `u32`.
pub open spec fn clone_id_readable(s: Seq<char>) -> bool {
    has_dot(s) && parse_u32(index_part(s)) is Some
}

/// The text of the clone id of role `role` and index `index`.
pub open spec fn clone_id_text(role: Seq<char>, index: u32) -> Seq<char> {
    role + seq!['.'] + decimal(index as nat)
}

/// The display text of a readable clone id: its base role id, `.`, and the
/// decimal text of its index.
pub open spec fn clone_id_display(s: Seq<char>) -> Seq<char> {
    base_part(s) + seq!['.'] + decimal(parse_u32(index_part(s))->0 as nat)
}

/// Two positions of the last `.` are one position.
proof fn lemma_last_dot_unique(s: Seq<char>, k: int)
    requires
        is_last_dot(s, k),
    ensures
        last_dot(s) == k,
{
    let c = last_dot(s);
    assert(is_last_dot(s, c));
    if c < k {
        assert(s[c] != '.');
    } else if k < c {
        assert(s[k] != '.');
    }
}

/// The position of the last `.` in `s`.
fn find_dot(s: &str) -> (k: usize)
    requires
        has_dot(s@),
    ensures
        is_last_dot(s@, k as int),
        k == last_dot(s@),
{
    let ghost w = choose|k: int| 0 <= k < s@.len() && s@[k] == '.';
    let len = s.unicode_len();
    let mut i: usize = len - 1;
    while s.get_char(i) != '.'
        invariant
            0 <= w < s@.len() == len,
            s@[w] == '.',
            w <= i < len,
            forall|j: int| i < j < len ==> s@[j] != '.',
        decreases i - w,
    {
        i = i - 1;
    }
    proof {
        lemma_last_dot_unique(s@, i as int);
    }
    i
}

impl CloneId {
    /// Construct a clone id from role id and clone index.
    pub fn new(role_id: &AppRoleId, clone_index: u32) -> (c: Self)
        ensures
            c.0@ == clone_id_text(role_id@, clone_index),
    {
        proof {
            reveal_strlit(".");
        }
        let mut s = role_id.clone();
        s.append(CLONE_ID_DELIMITER);
        push_decimal(&mut s, clone_index);
        CloneId(s)
    }

    /// Get the clone's base cell's role id.
    pub fn as_base_role_id(&self) -> (r: AppRoleId)
        requires
            has_dot(self.0@),
        ensures
            r@ == base_part(self.0@),
    {
        let s = self.0.as_str();
        let k = find_dot(s);
        s.substring_char(0, k).to_owned()
    }

    /// Get the index of the clone cell.
    pub fn as_clone_index(&self) -> (i: u32)
        requires
            clone_id_readable(self.0@),
        ensures
            Some(i) == parse_u32(index_part(self.0@)),
    {
        let s = self.0.as_str();
        let k = find_dot(s);
        let len = s.unicode_len();
        let rest = s.substring_char(k + 1, len);
        assert(rest@ =~= index_part(self.0@));
        match parse_u32_decimal(rest) {
            Some(i) => i,
            None => 0,
        }
    }

    /// Whether this clone id can be read: it holds a `.`, and the text after
    /// the last one reads as a clone index.
    pub fn is_readable(&self) -> (b: bool)
        ensures
            b == clone_id_readable(self.0@),
    {
        let s = self.0.as_str();
        let len = s.unicode_len();
        let mut i: usize = 0;
        while i < len
            invariant
                i <= len == s@.len(),
                s@ == self.0@,
                forall|j: int| 0 <= j < i ==> s@[j] != '.',
            decreases len - i,
        {
            if s.get_char(i) == '.' {
                assert(s@[i as int] == '.');
                let k = find_dot(s);
                let rest = s.substring_char(k + 1, len);
                assert(rest@ =~= index_part(self.0@));
                return parse_u32_decimal(rest).is_some();
            }
            i = i + 1;
        }
        false
    }

    /// Get an app role id representation of the clone id.
    pub fn as_app_role_id(&self) -> (r: AppRoleId)
        ensures
            r@ == self.0@,
    {
        self.0.clone()
    }

    /// The display text of this clone id: its base role id, the delimiter, and
    /// its clone index.
    pub fn to_string(&self) -> (s: String)
        requires
            clone_id_readable(self.0@),
        ensures
            s@ == clone_id_display(self.0@),
    {
        proof {
            reveal_strlit(".");
        }
        let mut s = self.as_base_role_id();
        s.append(CLONE_ID_DELIMITER);
        push_decimal(&mut s, self.as_clone_index());
        s
    }
}

/// A clone id built from a role id and an index gives back that role id and
/// that index, and displays as the text it holds.
pub proof fn lemma_clone_id_round_trip(role: Seq<char>, index: u32)
    ensures
        clone_id_readable(clone_id_text(role, index)),
        base_part(clone_id_text(role, index)) == role,
        parse_u32(index_part(clone_id_text(role, index))) == Some(index),
        clone_id_display(clone_id_text(role, index)) == clone_id_text(role, index),
{
    let s = clone_id_text(role, index);
    let k = role.len() as int;
    assert(s[k] == '.');
    lemma_decimal_digits(index as nat);
    assert forall|j: int| k < j < s.len() implies s[j] != '.' by {
        assert(s[j] == decimal(index as nat)[j - k - 1]);
    }
    assert(is_last_dot(s, k));
    lemma_last_dot_unique(s, k);
    assert(base_part(s) =~= role);
    assert(index_part(s) =~= decimal(index as nat));
    lemma_parse_decimal(index);
}

} // verus!
