//! Identifiers of commits, changes and trees, and their hexadecimal forms.

use vstd::prelude::*;
use vstd::string::*;

verus! {

/// The digits of the hexadecimal form, by value.
pub open spec fn hex_digits() -> Seq<char> {
    "0123456789abcdef"@
}

/// The digits of the reverse hexadecimal form, by value: `z` stands for zero
/// and `k` for fifteen.
pub open spec fn reverse_hex_digits() -> Seq<char> {
    "zyxwvutsrqponmlk"@
}

/// `bytes` written with two digits per byte, the high half first.
pub open spec fn encoded(digits: Seq<char>, bytes: Seq<u8>) -> Seq<char> {
    Seq::new(
        2 * bytes.len(),
        |i: int|
            if i % 2 == 0 {
                digits[bytes[i / 2] as int / 16]
            } else {
                digits[bytes[i / 2] as int % 16]
            },
    )
}

/// The hexadecimal form of `bytes`.
pub open spec fn hex_of(bytes: Seq<u8>) -> Seq<char> {
    encoded(hex_digits(), bytes)
}

/// The reverse hexadecimal form of `bytes`.
pub open spec fn reverse_hex_of(bytes: Seq<u8>) -> Seq<char> {
    encoded(reverse_hex_digits(), bytes)
}

/// Writes `bytes` with the sixteen ASCII characters of `digits`.
fn encode(digits: &str, bytes: &Vec<u8>) -> (text: String)
    requires
        digits.is_ascii(),
        digits@.len() == 16,
    ensures
        text@ == encoded(digits@, bytes@),
{
    let mut text = String::new();
    let mut i: usize = 0;
    while i < bytes.len()
        invariant
            i <= bytes@.len(),
            digits.is_ascii(),
            digits@.len() == 16,
            text@ == encoded(digits@, bytes@.take(i as int)),
        decreases bytes@.len() - i,
    {
        let high: usize = (bytes[i] / 16) as usize;
        let low: usize = (bytes[i] % 16) as usize;
        let ghost before = text@;
        text.append(digits.substring_ascii(high, high + 1));
        text.append(digits.substring_ascii(low, low + 1));
        proof {
            let shorter = bytes@.take(i as int);
            let longer = bytes@.take(i + 1);
            assert(text@.len() == before.len() + 2);
            assert(text@ =~= encoded(digits@, longer)) by {
                assert forall|k: int| 0 <= k < text@.len() implies text@[k] == encoded(
                    digits@,
                    longer,
                )[k] by {
                    if k < before.len() {
                        assert(before[k] == encoded(digits@, shorter)[k]);
                        assert(shorter[k / 2] == longer[k / 2]);
                    }
                }
            }
        }
        i = i + 1;
    }
    proof {
        assert(bytes@.take(i as int) =~= bytes@);
    }
    text
}

/// A copy of `bytes`.
pub(crate) fn copied(bytes: &Vec<u8>) -> (copy: Vec<u8>)
    ensures
        copy@ == bytes@,
{
    let copy = bytes.clone();
    assert(copy@ =~= bytes@);
    copy
}

/// Whether `left` and `right` hold the same bytes.
pub(crate) fn same_bytes(left: &Vec<u8>, right: &Vec<u8>) -> (same: bool)
    ensures
        same == (left@ == right@),
{
    if left.len() != right.len() {
        return false;
    }
    let mut i: usize = 0;
    while i < left.len()
        invariant
            i <= left@.len(),
            left@.len() == right@.len(),
            forall|k: int| 0 <= k < i ==> left@[k] == right@[k],
        decreases left@.len() - i,
    {
        if left[i] != right[i] {
            return false;
        }
        i = i + 1;
    }
    assert(left@ =~= right@);
    true
}

/// The identifier of a commit.
#[derive(Debug, PartialEq, Eq)]
pub struct CommitId {
    pub bytes: Vec<u8>,
}

impl View for CommitId {
    type V = Seq<u8>;

    open spec fn view(&self) -> Seq<u8> {
        self.bytes@
    }
}

impl CommitId {
    /// The identifier with these bytes.
    pub fn new(bytes: Vec<u8>) -> (id: CommitId)
        ensures
            id@ == bytes@,
    {
        CommitId { bytes }
    }

    /// The identifier in hexadecimal.
    pub fn hex(&self) -> (text: String)
        ensures
            text@ == hex_of(self@),
    {
        proof {
            reveal_strlit("0123456789abcdef");
        }
        encode("0123456789abcdef", &self.bytes)
    }

    /// Whether the two identifiers are the same.
    pub fn same(&self, other: &CommitId) -> (same: bool)
        ensures
            same == (self@ == other@),
    {
        same_bytes(&self.bytes, &other.bytes)
    }
}

impl Clone for CommitId {
    fn clone(&self) -> (copy: CommitId)
        ensures
            copy@ == self@,
    {
        CommitId { bytes: copied(&self.bytes) }
    }
}

/// The identifier of a change, which stays when its commit is rewritten.
#[derive(Debug, PartialEq, Eq)]
pub struct ChangeId {
    pub bytes: Vec<u8>,
}

impl View for ChangeId {
    type V = Seq<u8>;

    open spec fn view(&self) -> Seq<u8> {
        self.bytes@
    }
}

impl ChangeId {
    /// The identifier with these bytes.
    pub fn new(bytes: Vec<u8>) -> (id: ChangeId)
        ensures
            id@ == bytes@,
    {
        ChangeId { bytes }
    }

    /// The identifier in reverse hexadecimal, the form in which it is shown.
    pub fn reverse_hex(&self) -> (text: String)
        ensures
            text@ == reverse_hex_of(self@),
    {
        proof {
            reveal_strlit("zyxwvutsrqponmlk");
        }
        encode("zyxwvutsrqponmlk", &self.bytes)
    }
}

impl Clone for ChangeId {
    fn clone(&self) -> (copy: ChangeId)
        ensures
            copy@ == self@,
    {
        ChangeId { bytes: copied(&self.bytes) }
    }
}

/// The identifier of a tree, the contents of a commit.
#[derive(Debug, PartialEq, Eq)]
pub struct TreeId {
    pub bytes: Vec<u8>,
}

impl View for TreeId {
    type V = Seq<u8>;

    open spec fn view(&self) -> Seq<u8> {
        self.bytes@
    }
}

impl TreeId {
    /// The identifier with these bytes.
    pub fn new(bytes: Vec<u8>) -> (id: TreeId)
        ensures
            id@ == bytes@,
    {
        TreeId { bytes }
    }
}

impl Clone for TreeId {
    fn clone(&self) -> (copy: TreeId)
        ensures
            copy@ == self@,
    {
        TreeId { bytes: copied(&self.bytes) }
    }
}

proof fn lemma_encoded_injective(digits: Seq<char>, a: Seq<u8>, b: Seq<u8>)
    requires
        digits.len() == 16,
        digits.no_duplicates(),
        encoded(digits, a) == encoded(digits, b),
    ensures
        a == b,
{
    let text = encoded(digits, a);
    assert(text.len() == 2 * a.len());
    assert(text.len() == 2 * b.len());
    assert forall|i: int| 0 <= i < a.len() implies a[i] == b[i] by {
        assert(text[2 * i] == digits[a[i] as int / 16]);
        assert(encoded(digits, b)[2 * i] == digits[b[i] as int / 16]);
        assert(text[2 * i + 1] == digits[a[i] as int % 16]);
        assert(encoded(digits, b)[2 * i + 1] == digits[b[i] as int % 16]);
    }
    assert(a =~= b);
}

/// Different identifiers have different hexadecimal forms.
pub proof fn law_hex_injective(a: Seq<u8>, b: Seq<u8>)
    requires
        hex_of(a) == hex_of(b),
    ensures
        a == b,
{
    reveal_strlit("0123456789abcdef");
    lemma_encoded_injective(hex_digits(), a, b);
}

/// Different identifiers have different reverse hexadecimal forms.
pub proof fn law_reverse_hex_injective(a: Seq<u8>, b: Seq<u8>)
    requires
        reverse_hex_of(a) == reverse_hex_of(b),
    ensures
        a == b,
{
    reveal_strlit("zyxwvutsrqponmlk");
    lemma_encoded_injective(reverse_hex_digits(), a, b);
}

/// The hexadecimal form has two characters per byte, each a decimal digit or
/// a letter from `a` to `f`; so it can name a file anywhere.
pub proof fn law_hex_alphabet(bytes: Seq<u8>)
    ensures
        hex_of(bytes).len() == 2 * bytes.len(),
        forall|i: int|
            0 <= i < hex_of(bytes).len() ==> {
                ||| '0' <= #[trigger] hex_of(bytes)[i] <= '9'
                ||| 'a' <= hex_of(bytes)[i] <= 'f'
            },
{
    reveal_strlit("0123456789abcdef");
}

/// The value of a hexadecimal digit.
pub open spec fn hex_value(digit: char) -> int {
    if digit <= '9' {
        digit as int - '0' as int
    } else {
        digit as int - 'a' as int + 10
    }
}

/// The value of a reverse hexadecimal digit.
pub open spec fn reverse_hex_value(digit: char) -> int {
    'z' as int - digit as int
}

proof fn lemma_digit_values(d: int)
    requires
        0 <= d < 16,
    ensures
        hex_value(hex_digits()[d]) == d,
        reverse_hex_value(reverse_hex_digits()[d]) == d,
{
    reveal_strlit("0123456789abcdef");
    reveal_strlit("zyxwvutsrqponmlk");
    if d == 0 {
    } else if d == 1 {
    } else if d == 2 {
    } else if d == 3 {
    } else if d == 4 {
    } else if d == 5 {
    } else if d == 6 {
    } else if d == 7 {
    } else if d == 8 {
    } else if d == 9 {
    } else if d == 10 {
    } else if d == 11 {
    } else if d == 12 {
    } else if d == 13 {
    } else if d == 14 {
    }
}

/// Both forms read back as the identifier, two digits per byte, the high half
/// first.
pub proof fn law_hex_reads_back(bytes: Seq<u8>, i: int)
    requires
        0 <= i < bytes.len(),
    ensures
        hex_of(bytes).len() == 2 * bytes.len(),
        16 * hex_value(hex_of(bytes)[2 * i]) + hex_value(hex_of(bytes)[2 * i + 1]) == bytes[i],
        reverse_hex_of(bytes).len() == 2 * bytes.len(),
        16 * reverse_hex_value(reverse_hex_of(bytes)[2 * i]) + reverse_hex_value(
            reverse_hex_of(bytes)[2 * i + 1],
        ) == bytes[i],
{
    lemma_digit_values(bytes[i] as int / 16);
    lemma_digit_values(bytes[i] as int % 16);
    assert((2 * i) / 2 == i && (2 * i + 1) / 2 == i);
}

/// An identifier is its bytes.
pub proof fn law_id_is_its_bytes(commit: CommitId, change: ChangeId, tree: TreeId)
    ensures
        commit@ == commit.bytes@,
        change@ == change.bytes@,
        tree@ == tree.bytes@,
{
}

} // verus!
