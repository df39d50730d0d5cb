use crate::primitives::Txid;
use vstd::prelude::*;
use vstd::string::*;

verus! {

/// The text of one hexadecimal digit, `0 <= n < 16`.
pub open spec fn hex_digit(n: int) -> Seq<char> {
    "0123456789abcdef"@.subrange(n, n + 1)
}

/// The hexadecimal text of the first `n` bytes in reverse order: the last of them comes first.
pub open spec fn reversed_hex(bytes: Seq<u8>, n: nat) -> Seq<char>
    decreases n,
{
    if n == 0 {
        Seq::empty()
    } else {
        hex_digit(bytes[n - 1] as int / 16) + hex_digit(bytes[n - 1] as int % 16) + reversed_hex(
            bytes,
            (n - 1) as nat,
        )
    }
}

impl Txid {
    /// The usual display of a txid: its bytes in reverse order, in hexadecimal.
    pub open spec fn text(self) -> Seq<char> {
        reversed_hex(self.bytes@, 32)
    }

    /// The txid as text, in the usual (reversed) byte order.
    pub fn to_text(&self) -> (r: String)
        ensures
            r@ == self.text(),
    {
        let digits = "0123456789abcdef";
        proof {
            reveal_strlit("0123456789abcdef");
        }
        let mut text = String::new();
        let mut n: usize = 32;
        while n > 0
            invariant
                n <= 32,
                digits@ == "0123456789abcdef"@,
                digits@.len() == 16,
                digits.is_ascii(),
                text@ + reversed_hex(self.bytes@, n as nat) == self.text(),
            decreases n,
        {
            n = n - 1;
            let byte: u8 = self.bytes[n];
            let high: usize = (byte / 16) as usize;
            let low: usize = (byte % 16) as usize;
            let ghost before = text@;
            text.append(digits.substring_ascii(high, high + 1));
            text.append(digits.substring_ascii(low, low + 1));
            assert(text@ + reversed_hex(self.bytes@, n as nat) =~= before + reversed_hex(
                self.bytes@,
                (n + 1) as nat,
            ));
        }
        assert(text@ =~= self.text());
        text
    }
}

/// The decimal text of a number.
pub open spec fn decimal(n: nat) -> Seq<char>
    decreases n,
{
    if n < 10 {
        hex_digit(n as int)
    } else {
        decimal(n / 10) + hex_digit((n % 10) as int)
    }
}

/// A number as decimal text.
pub fn to_decimal(n: u64) -> (r: String)
    ensures
        r@ == decimal(n as nat),
    decreases n,
{
    let digits = "0123456789abcdef";
    proof {
        reveal_strlit("0123456789abcdef");
    }
    let digit: usize = (n % 10) as usize;
    let last = digits.substring_ascii(digit, digit + 1);
    if n < 10 {
        last.to_string()
    } else {
        let text = to_decimal(n / 10);
        text.concat(last)
    }
}

/// The order of texts: by the first character in which they differ, a prefix before its extensions.
pub open spec fn precedes(a: Seq<char>, b: Seq<char>) -> bool
    decreases a.len(),
{
    if b.len() == 0 {
        false
    } else if a.len() == 0 {
        true
    } else if a[0] != b[0] {
        a[0] < b[0]
    } else {
        precedes(a.skip(1), b.skip(1))
    }
}

/// The order of texts is total: of two different texts one precedes the other.
pub proof fn lemma_precedes_total(a: Seq<char>, b: Seq<char>)
    ensures
        a == b || precedes(a, b) || precedes(b, a),
        a == b ==> !precedes(a, b),
    decreases a.len(),
{
    if a.len() > 0 && b.len() > 0 {
        lemma_precedes_total(a.skip(1), b.skip(1));
        if a[0] == b[0] && a.skip(1) == b.skip(1) {
            assert forall|i: int| 0 <= i < a.len() implies a[i] == b[i] by {
                if i > 0 {
                    assert(a.skip(1)[i - 1] == b.skip(1)[i - 1]);
                }
            }
            assert(a =~= b);
        }
    } else if a.len() == 0 && b.len() == 0 {
        assert(a =~= b);
    }
}

/// The order of texts is transitive.
pub proof fn lemma_precedes_transitive(a: Seq<char>, b: Seq<char>, c: Seq<char>)
    requires
        precedes(a, b),
        precedes(b, c),
    ensures
        precedes(a, c),
    decreases a.len(),
{
    if a.len() > 0 && a[0] == b[0] && b[0] == c[0] {
        lemma_precedes_transitive(a.skip(1), b.skip(1), c.skip(1));
    }
}

/// True when `a` comes before `b`.
pub fn text_precedes(a: &str, b: &str) -> (r: bool)
    ensures
        r == precedes(a@, b@),
{
    let n: usize = a.unicode_len();
    let m: usize = b.unicode_len();
    let mut i: usize = 0;
    proof {
        assert(a@.skip(0) =~= a@);
        assert(b@.skip(0) =~= b@);
    }
    while i < n && i < m
        invariant
            n == a@.len(),
            m == b@.len(),
            i <= n && i <= m,
            precedes(a@.skip(i as int), b@.skip(i as int)) == precedes(a@, b@),
        decreases n - i,
    {
        let x = a.get_char(i);
        let y = b.get_char(i);
        proof {
            assert(a@.skip(i as int).skip(1) =~= a@.skip(i + 1));
            assert(b@.skip(i as int).skip(1) =~= b@.skip(i + 1));
        }
        if x != y {
            return x < y;
        }
        i = i + 1;
    }
    n == i && i < m
}

/// `part` occurs in `text` at place `i`.
pub open spec fn occurs_at(text: Seq<char>, part: Seq<char>, i: int) -> bool {
    0 <= i && i + part.len() <= text.len() && text.subrange(i, i + part.len()) == part
}

/// `part` occurs in `text`.
pub open spec fn occurs_in(text: Seq<char>, part: Seq<char>) -> bool {
    exists|i: int| occurs_at(text, part, i)
}

/// True when `part` occurs in `text`.
pub fn text_contains(text: &str, part: &str) -> (r: bool)
    ensures
        r == occurs_in(text@, part@),
{
    let n: usize = text.unicode_len();
    let m: usize = part.unicode_len();
    if m == 0 {
        assert(text@.subrange(0, 0) =~= part@);
        assert(occurs_at(text@, part@, 0));
        return true;
    }
    if m > n {
        return false;
    }
    for i in 0..(n - m) + 1
        invariant
            n == text@.len(),
            m == part@.len(),
            0 < m <= n,
            forall|j: int| 0 <= j < i ==> !occurs_at(text@, part@, j),
    {
        let mut k: usize = 0;
        while k < m && text.get_char(i + k) == part.get_char(k)
            invariant
                n == text@.len(),
                m == part@.len(),
                i + m <= n,
                k <= m,
                forall|j: int| 0 <= j < k ==> text@[i + j] == part@[j],
            decreases m - k,
        {
            k = k + 1;
        }
        if k == m {
            assert(text@.subrange(i as int, i + m) =~= part@);
            assert(occurs_at(text@, part@, i as int));
            return true;
        }
        assert(!occurs_at(text@, part@, i as int)) by {
            assert(text@[i + k] != part@[k as int]);
            assert(text@.subrange(i as int, i + m)[k as int] == text@[i + k]);
        }
    }
    false
}

} // verus!
