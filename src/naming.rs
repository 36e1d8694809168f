use vstd::prelude::*;

verus! {

/// An output name pattern split around its sequence placeholder (`%d`, or
/// `%Nd` / `%0Nd` with at most two width digits). File names are the prefix,
/// the sequence number zero-padded to `width` digits, and the suffix.
#[derive(Clone, Debug)]
pub struct NamePattern {
    pub prefix: Vec<char>,
    pub width: usize,
    pub suffix: Vec<char>,
}

/// Why a name pattern was refused.
#[derive(Clone, Copy, Debug, PartialEq, Eq, Structural)]
pub enum PatternError {
    /// The pattern holds no `%`.
    NoPlaceholder,
    /// The first `%` does not start a well-formed placeholder, or a second
    /// `%` follows it.
    BadPlaceholder,
}

pub open spec fn is_digit(c: char) -> bool {
    '0' <= c && c <= '9'
}

pub open spec fn no_percent(s: Seq<char>) -> bool {
    forall|i: int| 0 <= i < s.len() ==> s[i] != '%'
}

pub open spec fn all_digits(s: Seq<char>) -> bool {
    forall|i: int| 0 <= i < s.len() ==> is_digit(#[trigger] s[i])
}

pub open spec fn digit_value(c: char) -> nat {
    (c as u32 - '0' as u32) as nat
}

/// The number that a string of decimal digits spells.
pub open spec fn digits_value(s: Seq<char>) -> nat
    decreases s.len(),
{
    if s.len() == 0 {
        0
    } else {
        digits_value(s.drop_last()) * 10 + digit_value(s.last())
    }
}

/// `s` is `prefix`, `%`, up to two width digits, `d`, then `suffix`, with no
/// other `%`.
pub open spec fn splits_as(s: Seq<char>, prefix: Seq<char>, digits: Seq<char>, suffix: Seq<char>) -> bool {
    &&& s == prefix + seq!['%'] + digits + seq!['d'] + suffix
    &&& no_percent(prefix)
    &&& no_percent(suffix)
    &&& all_digits(digits)
    &&& digits.len() <= 2
}

pub open spec fn valid_pattern(s: Seq<char>) -> bool {
    exists|prefix: Seq<char>, digits: Seq<char>, suffix: Seq<char>| splits_as(s, prefix, digits, suffix)
}

pub open spec fn digit_char(d: nat) -> char {
    if d == 0 {
        '0'
    } else if d == 1 {
        '1'
    } else if d == 2 {
        '2'
    } else if d == 3 {
        '3'
    } else if d == 4 {
        '4'
    } else if d == 5 {
        '5'
    } else if d == 6 {
        '6'
    } else if d == 7 {
        '7'
    } else if d == 8 {
        '8'
    } else {
        '9'
    }
}

/// Decimal digits of `n`, without leading zeros.
pub open spec fn decimal(n: nat) -> Seq<char>
    decreases n,
{
    if n < 10 {
        seq![digit_char(n)]
    } else {
        decimal(n / 10).push(digit_char(n % 10))
    }
}

/// `s` with zeros in front up to `width` characters.
pub open spec fn zero_pad(s: Seq<char>, width: nat) -> Seq<char> {
    if s.len() >= width {
        s
    } else {
        Seq::new((width - s.len()) as nat, |i: int| '0') + s
    }
}

/// The name of the file with sequence number `index`.
pub open spec fn name_of(prefix: Seq<char>, width: nat, suffix: Seq<char>, index: nat) -> Seq<char> {
    prefix + zero_pad(decimal(index), width) + suffix
}

fn exec_digit_char(d: u64) -> (c: char)
    requires
        d < 10,
    ensures
        c == digit_char(d as nat),
{
    if d == 0 {
        '0'
    } else if d == 1 {
        '1'
    } else if d == 2 {
        '2'
    } else if d == 3 {
        '3'
    } else if d == 4 {
        '4'
    } else if d == 5 {
        '5'
    } else if d == 6 {
        '6'
    } else if d == 7 {
        '7'
    } else if d == 8 {
        '8'
    } else {
        '9'
    }
}

/// Decimal digits of `n`.
fn decimal_chars(n: u64) -> (r: Vec<char>)
    ensures
        r@ == decimal(n as nat),
{
    let mut q: u64 = n;
    let mut acc: Vec<char> = Vec::new();
    while q >= 10
        invariant
            decimal(n as nat) == decimal(q as nat) + acc@,
        decreases q,
    {
        let c = exec_digit_char(q % 10);
        let ghost head = decimal((q / 10) as nat);
        let ghost before = acc@;
        acc.insert(0, c);
        assert(acc@ =~= seq![c] + before);
        assert(head.push(c) + before =~= head + acc@);
        q = q / 10;
    }
    let c = exec_digit_char(q);
    let ghost before = acc@;
    acc.insert(0, c);
    assert(acc@ =~= seq![c] + before);
    acc
}

fn append_chars(out: &mut Vec<char>, s: &Vec<char>)
    ensures
        final(out)@ == old(out)@ + s@,
{
    let mut i: usize = 0;
    while i < s.len()
        invariant
            i <= s.len(),
            out@ == old(out)@ + s@.subrange(0, i as int),
        decreases s.len() - i,
    {
        out.push(s[i]);
        i += 1;
        assert(s@.subrange(0, i as int) =~= s@.subrange(0, i - 1).push(s@[i - 1]));
    }
    assert(s@.subrange(0, s.len() as int) =~= s@);
}

/// Characters `from..to` of `s`; `None` if one of them is `%`.
fn slice_without_percent(s: &str, from: usize, to: usize) -> (r: Option<Vec<char>>)
    requires
        from <= to <= s@.len(),
    ensures
        r matches Some(v) ==> v@ == s@.subrange(from as int, to as int) && no_percent(v@),
        r is None ==> !no_percent(s@.subrange(from as int, to as int)),
{
    let mut v: Vec<char> = Vec::new();
    let mut i: usize = from;
    while i < to
        invariant
            from <= i <= to,
            to <= s@.len(),
            v@ == s@.subrange(from as int, i as int),
            no_percent(v@),
        decreases to - i,
    {
        let c = s.get_char(i);
        if c == '%' {
            assert(s@.subrange(from as int, to as int)[i - from] == '%');
            return None;
        }
        v.push(c);
        i += 1;
        assert(v@ =~= s@.subrange(from as int, i as int));
    }
    Some(v)
}

proof fn lemma_split_is_unique(
    s: Seq<char>,
    i: int,
    k: int,
    prefix: Seq<char>,
    digits: Seq<char>,
    suffix: Seq<char>,
)
    requires
        splits_as(s, prefix, digits, suffix),
        0 <= i < s.len(),
        s[i] == '%',
        forall|t: int| 0 <= t < i ==> s[t] != '%',
        0 <= k,
        i + 1 + k <= s.len(),
        forall|t: int| i + 1 <= t < i + 1 + k ==> is_digit(#[trigger] s[t]),
        k > 2 || i + 1 + k == s.len() || !is_digit(s[i + 1 + k]),
    ensures
        prefix.len() == i,
        digits.len() == k,
        k <= 2,
        s[i + 1 + k] == 'd',
        digits == s.subrange(i + 1, i + 1 + k),
        suffix == s.subrange(i + 2 + k, s.len() as int),
{
    let p = prefix.len() as int;
    assert(s[p] == '%');
    if p > i {
        assert(prefix[i] == s[i]);
    }
    assert(p == i);
    let dl = digits.len() as int;
    assert(s[i + 1 + dl] == 'd');
    if dl < k {
        assert(is_digit(s[i + 1 + dl]));
    }
    if dl > k && k < s.len() - i - 1 {
        assert(s[i + 1 + k] == digits[k]);
    }
    if dl > k {
        assert(s[i + 1 + k] == digits[k]);
        assert(is_digit(digits[k]));
    }
    assert(dl == k);
    assert(digits =~= s.subrange(i + 1, i + 1 + k));
    assert(suffix =~= s.subrange(i + 2 + k, s.len() as int));
}

impl NamePattern {
    /// Splits a pattern around its placeholder. It is accepted exactly when it
    /// holds one `%`, followed by at most two digits and a `d`.
    pub fn parse(s: &str) -> (r: Result<NamePattern, PatternError>)
        ensures
            r is Ok <==> valid_pattern(s@),
            r == Err::<NamePattern, PatternError>(PatternError::NoPlaceholder) <==> no_percent(s@),
            r matches Ok(p) ==> exists|digits: Seq<char>|
                splits_as(s@, p.prefix@, digits, p.suffix@) && p.width == digits_value(digits),
    {
        let n = s.unicode_len();
        let mut i: usize = 0;
        while i < n && s.get_char(i) != '%'
            invariant
                n == s@.len(),
                i <= n,
                forall|t: int| 0 <= t < i ==> s@[t] != '%',
            decreases n - i,
        {
            i += 1;
        }
        if i == n {
            proof {
                assert forall|prefix: Seq<char>, digits: Seq<char>, suffix: Seq<char>|
                    !splits_as(s@, prefix, digits, suffix) by {
                    if splits_as(s@, prefix, digits, suffix) {
                        assert(s@[prefix.len() as int] == '%');
                    }
                }
            }
            return Err(PatternError::NoPlaceholder);
        }
        let mut k: usize = 0;
        loop
            invariant
                n == s@.len(),
                i < n,
                k <= 3,
                i + 1 + k <= n,
                forall|t: int| i + 1 <= t < i + 1 + k ==> is_digit(#[trigger] s@[t]),
            ensures
                k <= 3,
                i + 1 + k <= n,
                forall|t: int| i + 1 <= t < i + 1 + k ==> is_digit(#[trigger] s@[t]),
                k > 2 || i + 1 + k == n || !is_digit(s@[i + 1 + k]),
            decreases 3 - k,
        {
            if k == 3 || i + 1 + k >= n {
                break;
            }
            let c = s.get_char(i + 1 + k);
            if !('0' <= c && c <= '9') {
                break;
            }
            k += 1;
        }
        assert(s@[i as int] == '%');
        if k > 2 || i + 1 + k >= n || s.get_char(i + 1 + k) != 'd' {
            proof {
                assert forall|prefix: Seq<char>, digits: Seq<char>, suffix: Seq<char>|
                    !splits_as(s@, prefix, digits, suffix) by {
                    if splits_as(s@, prefix, digits, suffix) {
                        lemma_split_is_unique(s@, i as int, k as int, prefix, digits, suffix);
                    }
                }
            }
            return Err(PatternError::BadPlaceholder);
        }
        let prefix = match slice_without_percent(s, 0, i) {
            Some(v) => v,
            None => {
                return Err(PatternError::BadPlaceholder);
            },
        };
        let suffix = match slice_without_percent(s, i + 2 + k, n) {
            Some(v) => v,
            None => {
                proof {
                    assert forall|pr: Seq<char>, digits: Seq<char>, su: Seq<char>|
                        !splits_as(s@, pr, digits, su) by {
                        if splits_as(s@, pr, digits, su) {
                            lemma_split_is_unique(s@, i as int, k as int, pr, digits, su);
                        }
                    }
                }
                return Err(PatternError::BadPlaceholder);
            },
        };
        let ghost digits = s@.subrange(i + 1, i + 1 + k);
        assert forall|j: int| 0 <= j < digits.len() implies is_digit(#[trigger] digits[j]) by {
            assert(digits[j] == s@[i + 1 + j]);
        }
        let width: usize = if k == 0 {
            0
        } else if k == 1 {
            let c0 = s.get_char(i + 1);
            assert(c0 == digits[0]);
            assert(digits.drop_last() =~= Seq::<char>::empty());
            assert(digits.last() == c0);
            assert(digits_value(Seq::<char>::empty()) == 0);
            assert(digits_value(digits) == digits_value(digits.drop_last()) * 10 + digit_value(digits.last()));
            assert(digits_value(digits) == digit_value(c0));
            (c0 as u32 - '0' as u32) as usize
        } else {
            let c0 = s.get_char(i + 1);
            let c1 = s.get_char(i + 2);
            assert(c0 == digits[0] && c1 == digits[1]);
            assert(digits.drop_last().drop_last() =~= Seq::<char>::empty());
            assert(digits.drop_last() =~= seq![c0]);
            assert(seq![c0].drop_last() =~= Seq::<char>::empty());
            assert(seq![c0].last() == c0);
            assert(digits_value(Seq::<char>::empty()) == 0);
            assert(digits_value(seq![c0]) == digits_value(seq![c0].drop_last()) * 10 + digit_value(c0));
            assert(digits_value(seq![c0]) == digit_value(c0));
            assert(digits.last() == c1);
            assert(digits_value(digits) == digits_value(digits.drop_last()) * 10 + digit_value(digits.last()));
            assert(digits_value(digits) == digit_value(c0) * 10 + digit_value(c1));
            (c0 as u32 - '0' as u32) as usize * 10 + (c1 as u32 - '0' as u32) as usize
        };
        assert(width == digits_value(digits));
        proof {
            assert(s@ =~= prefix@ + seq!['%'] + digits + seq!['d'] + suffix@);
            assert(splits_as(s@, prefix@, digits, suffix@));
        }
        Ok(NamePattern { prefix, width, suffix })
    }

    /// The file name for sequence number `index`.
    pub fn file_name(&self, index: u64) -> (r: Vec<char>)
        ensures
            r@ == name_of(self.prefix@, self.width as nat, self.suffix@, index as nat),
    {
        let digits = decimal_chars(index);
        let mut out: Vec<char> = Vec::new();
        append_chars(&mut out, &self.prefix);
        let mut z: usize = digits.len();
        let ghost zeros_start = out@;
        while z < self.width
            invariant
                digits.len() <= z <= self.width || (digits.len() >= self.width && z == digits.len()),
                out@ == zeros_start + Seq::new((z - digits.len()) as nat, |i: int| '0'),
            decreases self.width - z,
        {
            out.push('0');
            z += 1;
            assert(out@ =~= zeros_start + Seq::new((z - digits.len()) as nat, |i: int| '0'));
        }
        let ghost zeros = Seq::new((z - digits.len()) as nat, |i: int| '0');
        append_chars(&mut out, &digits);
        append_chars(&mut out, &self.suffix);
        proof {
            if digits.len() >= self.width {
                assert(zeros =~= Seq::<char>::empty());
                assert(out@ =~= self.prefix@ + digits@ + self.suffix@);
            } else {
                assert(out@ =~= self.prefix@ + (zeros + digits@) + self.suffix@);
            }
        }
        out
    }
}

} // verus!
