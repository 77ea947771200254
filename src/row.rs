//! The fixed-width row: an identifier and two bounded text fields, each text
//! held in a fixed buffer together with the number of characters in use.

use vstd::prelude::*;

use crate::text::{decimal, push_decimal};

verus! {

/// Most characters a username may hold.
pub const COLUMN_USERNAME_SIZE: usize = 32;

/// Most characters an email may hold.
pub const COLUMN_EMAIL_SIZE: usize = 255;

/// Bytes that the identifier takes in a row.
pub const ID_SIZE: usize = 4;

/// Bytes that one character slot takes in a row.
pub const CHAR_SIZE: usize = 4;

/// Bytes that one row takes: the identifier and both text fields at full width.
pub const ROW_SIZE: usize = ID_SIZE + CHAR_SIZE * COLUMN_USERNAME_SIZE + CHAR_SIZE * COLUMN_EMAIL_SIZE;

/// The padding character that fills unused text slots.
pub const SENTINEL: char = '\0';

/// What a row means: its identifier and the characters in use of each field.
pub struct RowView {
    pub id: u32,
    pub username: Seq<char>,
    pub email: Seq<char>,
}

/// The text form of a row: `(<id>, '<username>', '<email>')`.
pub open spec fn rendered(r: RowView) -> Seq<char> {
    seq!['('] + decimal(r.id as nat) + seq![',', ' ', '\''] + r.username + seq!['\'', ',', ' ', '\'']
        + r.email + seq!['\'', ')']
}

/// One record, stored at a fixed width whatever its text.
#[derive(Clone, Copy, Debug)]
pub struct Row {
    id: u32,
    username: [char; COLUMN_USERNAME_SIZE],
    username_len: usize,
    email: [char; COLUMN_EMAIL_SIZE],
    email_len: usize,
}

impl View for Row {
    type V = RowView;

    closed spec fn view(&self) -> RowView {
        RowView {
            id: self.id,
            username: self.username@.take(self.username_len as int),
            email: self.email@.take(self.email_len as int),
        }
    }
}

impl Row {
    /// The stored lengths lie within the buffers.
    pub closed spec fn wf(&self) -> bool {
        self.username_len <= COLUMN_USERNAME_SIZE && self.email_len <= COLUMN_EMAIL_SIZE
    }

    /// The row that fills an unused slot: identifier 0 and both fields empty,
    /// every character slot holding the padding character.
    pub fn blank() -> (r: Self)
        ensures
            r.wf(),
            r@ == (RowView { id: 0, username: Seq::empty(), email: Seq::empty() }),
    {
        let r = Row {
            id: 0,
            username: [SENTINEL; COLUMN_USERNAME_SIZE],
            username_len: 0,
            email: [SENTINEL; COLUMN_EMAIL_SIZE],
            email_len: 0,
        };
        proof {
            assert(r@.username =~= Seq::empty());
            assert(r@.email =~= Seq::empty());
        }
        r
    }

    /// A row holding `id`, `username` and `email`, each text left-aligned in
    /// its buffer and the rest padded.
    pub fn new(id: u32, username: &str, email: &str) -> (r: Self)
        requires
            username@.len() <= COLUMN_USERNAME_SIZE,
            email@.len() <= COLUMN_EMAIL_SIZE,
        ensures
            r.wf(),
            r@ == (RowView { id, username: username@, email: email@ }),
    {
        let mut r = Row {
            id,
            username: [SENTINEL; COLUMN_USERNAME_SIZE],
            username_len: 0,
            email: [SENTINEL; COLUMN_EMAIL_SIZE],
            email_len: 0,
        };
        let n = username.unicode_len();
        let mut i: usize = 0;
        while i < n
            invariant
                n == username@.len(),
                n <= COLUMN_USERNAME_SIZE,
                i <= n,
                r.id == id,
                r.username_len == 0,
                r.email_len == 0,
                forall|j: int| 0 <= j < i ==> r.username@[j] == username@[j],
            decreases n - i,
        {
            r.username[i] = username.get_char(i);
            i = i + 1;
        }
        r.username_len = n;
        let m = email.unicode_len();
        let mut k: usize = 0;
        while k < m
            invariant
                m == email@.len(),
                m <= COLUMN_EMAIL_SIZE,
                k <= m,
                r.id == id,
                r.username_len == n,
                n == username@.len(),
                n <= COLUMN_USERNAME_SIZE,
                r.email_len == 0,
                forall|j: int| 0 <= j < n ==> r.username@[j] == username@[j],
                forall|j: int| 0 <= j < k ==> r.email@[j] == email@[j],
            decreases m - k,
        {
            r.email[k] = email.get_char(k);
            k = k + 1;
        }
        r.email_len = m;
        proof {
            assert(r@.username =~= username@);
            assert(r@.email =~= email@);
        }
        r
    }

    /// The identifier.
    pub fn id(&self) -> (r: u32)
        ensures
            r == self@.id,
    {
        self.id
    }

    /// The text form of the row, with no padding characters:
    /// `(<id>, '<username>', '<email>')`.
    pub fn render(&self) -> (r: String)
        requires
            self.wf(),
        ensures
            r@ == rendered(self@),
    {
        let mut out: Vec<char> = Vec::new();
        out.push('(');
        push_decimal(self.id, &mut out);
        out.push(',');
        out.push(' ');
        out.push('\'');
        let ghost head = out@;
        let mut i: usize = 0;
        while i < self.username_len
            invariant
                self.wf(),
                i <= self.username_len,
                out@ == head + self.username@.take(i as int),
            decreases self.username_len - i,
        {
            out.push(self.username[i]);
            proof {
                assert(self.username@.take(i + 1) =~= self.username@.take(i as int).push(
                    self.username@[i as int],
                ));
            }
            i = i + 1;
        }
        out.push('\'');
        out.push(',');
        out.push(' ');
        out.push('\'');
        let ghost middle = out@;
        let mut k: usize = 0;
        while k < self.email_len
            invariant
                self.wf(),
                k <= self.email_len,
                out@ == middle + self.email@.take(k as int),
            decreases self.email_len - k,
        {
            out.push(self.email[k]);
            proof {
                assert(self.email@.take(k + 1) =~= self.email@.take(k as int).push(
                    self.email@[k as int],
                ));
            }
            k = k + 1;
        }
        out.push('\'');
        out.push(')');
        proof {
            assert(out@ =~= rendered(self@));
        }
        string_from_chars(&out)
    }
}

/// Relies on `String`'s `FromIterator<&char>`, which appends the characters in order.
#[verifier::external_body]
fn string_from_chars(chars: &Vec<char>) -> (r: String)
    ensures
        r@ == chars@,
{
    chars.iter().collect()
}

} // verus!
