use crate::rule::OnOffRule;
use vstd::prelude::*;
use vstd::string::StrSliceExecFns;
use vstd::string::StringExecFns;

verus! {

/// Whether a character is a decimal digit.
pub open spec fn is_digit(c: char) -> bool {
    '0' as u32 <= c as u32 <= '9' as u32
}

/// The numeric value of a decimal digit.
pub open spec fn digit_val(c: char) -> int {
    c as u32 - '0' as u32
}

/// Whether every character of a sequence is a decimal digit.
pub open spec fn all_digits(s: Seq<char>) -> bool {
    forall|i: int| 0 <= i < s.len() ==> is_digit(s[i])
}

/// The value of a sequence of decimal digits, most significant first;
/// the empty sequence has value zero.
pub open spec fn digits_val(s: Seq<char>) -> int
    decreases s.len(),
{
    if s.len() == 0 {
        0
    } else {
        digits_val(s.drop_last()) * 10 + digit_val(s.last())
    }
}

/// A sequence of digits has a non-negative value.
pub proof fn lemma_digits_val_nonneg(s: Seq<char>)
    requires
        all_digits(s),
    ensures
        digits_val(s) >= 0,
    decreases s.len(),
{
    if s.len() > 0 {
        assert(all_digits(s.drop_last()));
        lemma_digits_val_nonneg(s.drop_last());
    }
}

/// Extending a sequence of digits never lowers its value.
pub proof fn lemma_digits_val_prefix_le(s: Seq<char>, j: int)
    requires
        all_digits(s),
        0 <= j <= s.len(),
    ensures
        digits_val(s.subrange(0, j)) <= digits_val(s),
    decreases s.len() - j,
{
    if j == s.len() {
        assert(s.subrange(0, j) =~= s);
    } else {
        let shorter = s.subrange(0, j);
        let longer = s.subrange(0, j + 1);
        assert(longer.drop_last() =~= shorter);
        assert(all_digits(shorter));
        lemma_digits_val_nonneg(shorter);
        assert(digits_val(longer) == digits_val(shorter) * 10 + digit_val(s[j]));
        lemma_digits_val_prefix_le(s, j + 1);
    }
}

/// Whether `p` is a prefix of `s`.
pub open spec fn has_prefix(s: Seq<char>, p: Seq<char>) -> bool {
    s.len() >= p.len() && s.subrange(0, p.len() as int) == p
}

/// The opening text of the threshold rule's written form.
pub open spec fn threshold_prefix() -> Seq<char> {
    seq!['T', 'h', 'r', 'e', 's', 'h', 'o', 'l', 'd', '(']
}

/// The opening text of the inverted threshold rule's written form.
pub open spec fn inverted_prefix() -> Seq<char> {
    seq!['I', 'n', 'v', 'e', 'r', 't', 'e', 'd', 'T', 'h', 'r', 'e', 's', 'h', 'o', 'l', 'd', '(']
}

/// The opening text of the border rule's written form.
pub open spec fn border_prefix() -> Seq<char> {
    seq!['B', 'o', 'r', 'd', 'e', 'r', '(']
}

/// Whether `s` is the prefix, one or more digits, and a closing
/// parenthesis.
pub open spec fn wrapped_digits(s: Seq<char>, p: Seq<char>) -> bool {
    &&& s.len() > p.len() + 1
    &&& has_prefix(s, p)
    &&& s.last() == ')'
    &&& all_digits(s.subrange(p.len() as int, s.len() - 1))
}

/// The digits between the prefix and the closing parenthesis.
pub open spec fn wrapped_arg(s: Seq<char>, p: Seq<char>) -> Seq<char> {
    s.subrange(p.len() as int, s.len() - 1)
}

pub open spec fn threshold_form(s: Seq<char>) -> bool {
    wrapped_digits(s, threshold_prefix())
}

pub open spec fn threshold_value(s: Seq<char>) -> int {
    digits_val(wrapped_arg(s, threshold_prefix()))
}

pub open spec fn inverted_form(s: Seq<char>) -> bool {
    wrapped_digits(s, inverted_prefix())
}

pub open spec fn inverted_value(s: Seq<char>) -> int {
    digits_val(wrapped_arg(s, inverted_prefix()))
}

/// Whether `s` is the border rule's written form with its comma at
/// position `comma`: the prefix, one or more digits, a comma, one or
/// more digits, and a closing parenthesis.
pub open spec fn border_form_at(s: Seq<char>, comma: int) -> bool {
    &&& has_prefix(s, border_prefix())
    &&& 8 <= comma <= s.len() - 3
    &&& s[comma] == ','
    &&& s.last() == ')'
    &&& all_digits(s.subrange(7, comma))
    &&& all_digits(s.subrange(comma + 1, s.len() - 1))
}

pub open spec fn border_form(s: Seq<char>) -> bool {
    exists|comma: int| border_form_at(s, comma)
}

/// The comma position of a border form; it is unique, since the digits
/// before it can hold no comma.
pub open spec fn border_comma(s: Seq<char>) -> int {
    choose|comma: int| border_form_at(s, comma)
}

pub open spec fn border_first_value(s: Seq<char>) -> int {
    digits_val(s.subrange(7, border_comma(s)))
}

pub open spec fn border_second_value(s: Seq<char>) -> int {
    digits_val(s.subrange(border_comma(s) + 1, s.len() - 1))
}

/// Whether `s` is any rule's written form.
pub open spec fn rule_form(s: Seq<char>) -> bool {
    threshold_form(s) || inverted_form(s) || border_form(s)
}

/// Why a rule's written form was rejected.
#[derive(Clone, PartialEq, Eq, Debug)]
pub enum RuleParseError {
    /// A parameter was no number an `i32` can hold.
    ParseIntError,
    /// The text matches none of the rule forms; it is carried along.
    UnknownFormat(String),
}

/// The characters of a string slice, in order.
fn to_chars(s: &str) -> (cs: Vec<char>)
    ensures
        cs@ == s@,
{
    let n = s.unicode_len();
    let mut cs: Vec<char> = Vec::new();
    let mut i: usize = 0;
    while i < n
        invariant
            n == s@.len(),
            i <= n,
            cs@ == s@.subrange(0, i as int),
        decreases n - i,
    {
        let c = s.get_char(i);
        cs.push(c);
        proof {
            assert(cs@ =~= s@.subrange(0, i + 1));
        }
        i = i + 1;
    }
    proof {
        assert(cs@ =~= s@);
    }
    cs
}

/// Whether every character in `from..to` is a decimal digit.
fn check_digits(cs: &Vec<char>, from: usize, to: usize) -> (r: bool)
    requires
        from <= to <= cs@.len(),
    ensures
        r == all_digits(cs@.subrange(from as int, to as int)),
{
    let ghost seg = cs@.subrange(from as int, to as int);
    let mut i: usize = from;
    while i < to
        invariant
            from <= i <= to <= cs@.len(),
            seg == cs@.subrange(from as int, to as int),
            forall|j: int| 0 <= j < i - from ==> is_digit(seg[j]),
        decreases to - i,
    {
        let c = cs[i];
        if !(c as u32 >= '0' as u32 && c as u32 <= '9' as u32) {
            assert(!is_digit(seg[i - from]));
            return false;
        }
        assert(is_digit(seg[i - from]));
        i = i + 1;
    }
    true
}

/// The value of the digits in `from..to`, unless it exceeds the bound.
fn parse_digits_bounded(cs: &Vec<char>, from: usize, to: usize, bound: u64) -> (r: Option<u64>)
    requires
        from <= to <= cs@.len(),
        bound <= u32::MAX,
        all_digits(cs@.subrange(from as int, to as int)),
    ensures
        ({
            let seg = cs@.subrange(from as int, to as int);
            match r {
                Some(v) => v == digits_val(seg) && digits_val(seg) <= bound,
                None => digits_val(seg) > bound,
            }
        }),
{
    let ghost seg = cs@.subrange(from as int, to as int);
    let mut acc: u64 = 0;
    let mut i: usize = from;
    while i < to
        invariant
            from <= i <= to <= cs@.len(),
            bound <= u32::MAX,
            seg == cs@.subrange(from as int, to as int),
            all_digits(seg),
            acc == digits_val(seg.subrange(0, i - from)),
            acc <= bound,
        decreases to - i,
    {
        let c = cs[i];
        assert(is_digit(seg[i - from]));
        let d: u64 = (c as u32 - '0' as u32) as u64;
        let next: u64 = acc * 10 + d;
        proof {
            let done = seg.subrange(0, i - from);
            let more = seg.subrange(0, i - from + 1);
            assert(more.drop_last() =~= done);
            assert(more.last() == seg[i - from]);
            assert(digits_val(more) == digits_val(done) * 10 + digit_val(seg[i - from]));
            assert(next == digits_val(more));
        }
        if next > bound {
            proof {
                lemma_digits_val_prefix_le(seg, i - from + 1);
            }
            return None;
        }
        acc = next;
        i = i + 1;
    }
    proof {
        assert(seg.subrange(0, to - from) =~= seg);
    }
    Some(acc)
}

/// Whether the text is the given prefix, one or more digits, and a
/// closing parenthesis. The prefix is passed twice, as characters for
/// the comparison and as its length for the specification.
fn wrapped_digits_check(cs: &Vec<char>, p: &Vec<char>) -> (r: bool)
    ensures
        r == wrapped_digits(cs@, p@),
{
    let plen = p.len();
    if cs.len() < plen || cs.len() - plen < 2 {
        return false;
    }
    let mut i: usize = 0;
    while i < plen
        invariant
            i <= plen,
            plen == p@.len(),
            cs@.len() >= plen + 2,
            forall|j: int| 0 <= j < i ==> cs@[j] == p@[j],
        decreases plen - i,
    {
        if cs[i] != p[i] {
            assert(cs@.subrange(0, p@.len() as int)[i as int] != p@[i as int]);
            return false;
        }
        i = i + 1;
    }
    proof {
        assert(cs@.subrange(0, p@.len() as int) =~= p@);
    }
    if cs[cs.len() - 1] != ')' {
        return false;
    }
    check_digits(cs, plen, cs.len() - 1)
}

/// Characters of the threshold rule's opening text.
fn threshold_prefix_chars() -> (p: Vec<char>)
    ensures
        p@ == threshold_prefix(),
{
    let mut p: Vec<char> = Vec::new();
    p.push('T');
    p.push('h');
    p.push('r');
    p.push('e');
    p.push('s');
    p.push('h');
    p.push('o');
    p.push('l');
    p.push('d');
    p.push('(');
    proof {
        assert(p@ =~= threshold_prefix());
    }
    p
}

/// Characters of the inverted threshold rule's opening text.
fn inverted_prefix_chars() -> (p: Vec<char>)
    ensures
        p@ == inverted_prefix(),
{
    let mut p: Vec<char> = Vec::new();
    p.push('I');
    p.push('n');
    p.push('v');
    p.push('e');
    p.push('r');
    p.push('t');
    p.push('e');
    p.push('d');
    p.push('T');
    p.push('h');
    p.push('r');
    p.push('e');
    p.push('s');
    p.push('h');
    p.push('o');
    p.push('l');
    p.push('d');
    p.push('(');
    proof {
        assert(p@ =~= inverted_prefix());
    }
    p
}

/// Characters of the border rule's opening text.
fn border_prefix_chars() -> (p: Vec<char>)
    ensures
        p@ == border_prefix(),
{
    let mut p: Vec<char> = Vec::new();
    p.push('B');
    p.push('o');
    p.push('r');
    p.push('d');
    p.push('e');
    p.push('r');
    p.push('(');
    proof {
        assert(p@ =~= border_prefix());
    }
    p
}

impl OnOffRule {
    /// Reads a rule from its written form: `Threshold(<uint>)`,
    /// `InvertedThreshold(<uint>)` or `Border(<uint>,<uint>)`. Any other
    /// text is an unknown format; a parameter beyond `i32` is a number
    /// parse error.
    pub fn from_str(s: &str) -> (r: Result<OnOffRule, RuleParseError>)
        ensures
            threshold_form(s@) ==> (if threshold_value(s@) <= i32::MAX {
                r == Ok::<OnOffRule, RuleParseError>(OnOffRule::PxThreshold(threshold_value(s@) as i32))
            } else {
                r == Err::<OnOffRule, RuleParseError>(RuleParseError::ParseIntError)
            }),
            inverted_form(s@) ==> (if inverted_value(s@) <= i32::MAX {
                r == Ok::<OnOffRule, RuleParseError>(OnOffRule::InvertedPxThreshold(inverted_value(s@) as i32))
            } else {
                r == Err::<OnOffRule, RuleParseError>(RuleParseError::ParseIntError)
            }),
            border_form(s@) ==> (if border_first_value(s@) <= i32::MAX && border_second_value(s@)
                <= i32::MAX {
                r == Ok::<OnOffRule, RuleParseError>(
                    OnOffRule::Border(
                        border_first_value(s@) as i32,
                        border_second_value(s@) as i32,
                    ),
                )
            } else {
                r == Err::<OnOffRule, RuleParseError>(RuleParseError::ParseIntError)
            }),
            !rule_form(s@) ==> (r matches Err(RuleParseError::UnknownFormat(t)) && t@ == s@),
    {
        let cs = to_chars(s);
        let thr_prefix = threshold_prefix_chars();
        if wrapped_digits_check(&cs, &thr_prefix) {
            proof {
                lemma_digits_val_nonneg(wrapped_arg(cs@, threshold_prefix()));
            }
            return match parse_digits_bounded(&cs, 10, cs.len() - 1, 0x7FFF_FFFF) {
                Some(v) => Ok(OnOffRule::PxThreshold(v as i32)),
                None => Err(RuleParseError::ParseIntError),
            };
        }
        let inv_prefix = inverted_prefix_chars();
        if wrapped_digits_check(&cs, &inv_prefix) {
            proof {
                lemma_digits_val_nonneg(wrapped_arg(cs@, inverted_prefix()));
            }
            return match parse_digits_bounded(&cs, 18, cs.len() - 1, 0x7FFF_FFFF) {
                Some(v) => Ok(OnOffRule::InvertedPxThreshold(v as i32)),
                None => Err(RuleParseError::ParseIntError),
            };
        }
        match parse_border(&cs) {
            BorderParse::Matched(first, second) => Ok(OnOffRule::Border(first, second)),
            BorderParse::Overflow => Err(RuleParseError::ParseIntError),
            BorderParse::NoMatch => Err(RuleParseError::UnknownFormat(String::from_str(s))),
        }
    }
}

/// The outcome of reading a border rule's written form.
enum BorderParse {
    Matched(i32, i32),
    Overflow,
    NoMatch,
}

/// Reads the border rule's written form.
fn parse_border(cs: &Vec<char>) -> (r: BorderParse)
    ensures
        border_form(cs@) ==> (if border_first_value(cs@) <= i32::MAX && border_second_value(cs@)
            <= i32::MAX {
            (r matches BorderParse::Matched(first, second) && first == border_first_value(cs@)
                && second == border_second_value(cs@))
        } else {
            r is Overflow
        }),
        !border_form(cs@) ==> r is NoMatch,
{
    let n = cs.len();
    let bp = border_prefix_chars();
    if n < 11 {
        proof {
            assert(forall|c: int| !border_form_at(cs@, c));
        }
        return BorderParse::NoMatch;
    }
    let mut i: usize = 0;
    while i < 7
        invariant
            i <= 7,
            n == cs@.len(),
            n >= 11,
            bp@ == border_prefix(),
            forall|j: int| 0 <= j < i ==> cs@[j] == border_prefix()[j],
        decreases 7 - i,
    {
        if cs[i] != bp[i] {
            proof {
                assert forall|c: int| !border_form_at(cs@, c) by {
                    if has_prefix(cs@, border_prefix()) {
                        assert(cs@.subrange(0, 7)[i as int] == border_prefix()[i as int]);
                    }
                }
            }
            return BorderParse::NoMatch;
        }
        i = i + 1;
    }
    proof {
        assert(cs@.subrange(0, 7) =~= border_prefix());
        assert(has_prefix(cs@, border_prefix()));
    }
    if cs[n - 1] != ')' {
        proof {
            assert(forall|c: int| !border_form_at(cs@, c));
        }
        return BorderParse::NoMatch;
    }
    // Find the first comma after the prefix; the first parameter's digits
    // can hold none, so a border form's comma can stand nowhere else.
    let mut comma: usize = 7;
    while comma < n - 1 && cs[comma] != ','
        invariant
            7 <= comma <= n - 1,
            n == cs@.len(),
            forall|j: int| 7 <= j < comma ==> cs@[j] != ',',
        decreases n - comma,
    {
        comma = comma + 1;
    }
    if comma == n - 1 {
        proof {
            assert forall|c: int| !border_form_at(cs@, c) by {
                if 8 <= c <= cs@.len() - 3 {
                    assert(cs@[c] != ',');
                }
            }
        }
        return BorderParse::NoMatch;
    }
    assert(cs@[comma as int] == ',');
    let first_ok = comma >= 8 && check_digits(cs, 7, comma);
    let second_ok = comma + 2 <= n - 1 && check_digits(cs, comma + 1, n - 1);
    if !(first_ok && second_ok) {
        proof {
            assert forall|c: int| !border_form_at(cs@, c) by {
                if border_form_at(cs@, c) {
                    if c < comma {
                        assert(cs@[c] != ',');
                    } else if c > comma {
                        assert(is_digit(cs@.subrange(7, c)[comma - 7]));
                    } else {
                        assert(all_digits(cs@.subrange(7, comma as int)));
                        assert(all_digits(cs@.subrange(comma as int + 1, cs@.len() - 1)));
                    }
                }
            }
        }
        return BorderParse::NoMatch;
    }
    proof {
        assert(border_form_at(cs@, comma as int));
        assert forall|c: int| border_form_at(cs@, c) implies c == comma as int by {
            if c < comma {
                assert(cs@[c] != ',');
            } else if c > comma {
                assert(is_digit(cs@.subrange(7, c)[comma - 7]));
            }
        }
        assert(border_comma(cs@) == comma as int);
        lemma_digits_val_nonneg(cs@.subrange(7, comma as int));
        lemma_digits_val_nonneg(cs@.subrange(comma as int + 1, cs@.len() - 1));
    }
    let first = match parse_digits_bounded(cs, 7, comma, 0x7FFF_FFFF) {
        Some(v) => v,
        None => {
            return BorderParse::Overflow;
        },
    };
    let second = match parse_digits_bounded(cs, comma + 1, n - 1, 0x7FFF_FFFF) {
        Some(v) => v,
        None => {
            return BorderParse::Overflow;
        },
    };
    BorderParse::Matched(first as i32, second as i32)
}

/// A requested output size: the source's own size, or an explicit
/// width and height.
#[derive(Clone, Copy, PartialEq, Eq, Structural, Debug)]
pub enum ImageSize {
    Default,
    Sized { width: u32, height: u32 },
}

/// Why a size's written form was rejected.
#[derive(Clone, PartialEq, Eq, Debug)]
pub enum SizeParseError {
    /// A segment was no number a `u32` can hold.
    ParseIntError,
    /// The text holds no separator; it is carried along.
    UnknownSizeFormat(String),
}

/// The digits of a written unsigned number: an optional leading plus
/// sign is dropped.
pub open spec fn uint_digits(s: Seq<char>) -> Seq<char> {
    if s.len() > 0 && s[0] == '+' {
        s.drop_first()
    } else {
        s
    }
}

/// Whether `s` is a written unsigned number a `u32` can hold.
pub open spec fn parses_as_u32(s: Seq<char>) -> bool {
    &&& uint_digits(s).len() >= 1
    &&& all_digits(uint_digits(s))
    &&& digits_val(uint_digits(s)) <= u32::MAX
}

pub open spec fn u32_value(s: Seq<char>) -> int {
    digits_val(uint_digits(s))
}

/// Whether `i` is the position of the first separator of `s` and `j`
/// the end of the segment after it: the next separator, or the end of
/// the text. Segments past `j` are ignored.
pub open spec fn x_split_at(s: Seq<char>, i: int, j: int) -> bool {
    &&& 0 <= i < s.len()
    &&& s[i] == 'x'
    &&& (forall|k: int| 0 <= k < i ==> s[k] != 'x')
    &&& i < j <= s.len()
    &&& (forall|k: int| i < k < j ==> s[k] != 'x')
    &&& (j == s.len() || s[j] == 'x')
}

/// The value of the written number in `from..to`, when it is one a
/// `u32` can hold.
fn parse_u32_segment(cs: &Vec<char>, from: usize, to: usize) -> (r: Option<u32>)
    requires
        from <= to <= cs@.len(),
    ensures
        ({
            let seg = cs@.subrange(from as int, to as int);
            match r {
                Some(v) => parses_as_u32(seg) && v == u32_value(seg),
                None => !parses_as_u32(seg),
            }
        }),
{
    let ghost seg = cs@.subrange(from as int, to as int);
    let start: usize = if to > from && cs[from] == '+' {
        from + 1
    } else {
        from
    };
    proof {
        assert(uint_digits(seg) =~= cs@.subrange(start as int, to as int));
    }
    if start == to {
        return None;
    }
    if !check_digits(cs, start, to) {
        return None;
    }
    proof {
        lemma_digits_val_nonneg(cs@.subrange(start as int, to as int));
    }
    match parse_digits_bounded(cs, start, to, 0xFFFF_FFFF) {
        Some(v) => Some(v as u32),
        None => None,
    }
}

impl ImageSize {
    /// Reads a size from its written form: `_` for the source's own
    /// size, or a width and a height separated by `x`, each a `u32`.
    /// Text after a second separator is ignored. Text without a
    /// separator is an unknown format.
    pub fn from_str(s: &str) -> (r: Result<ImageSize, SizeParseError>)
        ensures
            s@ == seq!['_'] ==> r == Ok::<ImageSize, SizeParseError>(ImageSize::Default),
            s@ != seq!['_'] && (forall|k: int| 0 <= k < s@.len() ==> s@[k] != 'x') ==> (
            r matches Err(SizeParseError::UnknownSizeFormat(t)) && t@ == s@),
            forall|i: int, j: int|
                s@ != seq!['_'] && x_split_at(s@, i, j) ==> (if parses_as_u32(
                    s@.subrange(0, i),
                ) && parses_as_u32(s@.subrange(i + 1, j)) {
                    r == Ok::<ImageSize, SizeParseError>(
                        ImageSize::Sized {
                            width: u32_value(s@.subrange(0, i)) as u32,
                            height: u32_value(s@.subrange(i + 1, j)) as u32,
                        },
                    )
                } else {
                    r == Err::<ImageSize, SizeParseError>(SizeParseError::ParseIntError)
                }),
    {
        let cs = to_chars(s);
        let n = cs.len();
        if n == 1 && cs[0] == '_' {
            proof {
                assert(cs@ =~= seq!['_']);
            }
            return Ok(ImageSize::Default);
        }
        proof {
            assert(seq!['_'].len() == 1);
            assert(cs@ != seq!['_']);
        }
        let mut i: usize = 0;
        while i < n && cs[i] != 'x'
            invariant
                i <= n,
                n == cs@.len(),
                forall|k: int| 0 <= k < i ==> cs@[k] != 'x',
            decreases n - i,
        {
            i = i + 1;
        }
        if i == n {
            return Err(SizeParseError::UnknownSizeFormat(String::from_str(s)));
        }
        let mut j: usize = i + 1;
        while j < n && cs[j] != 'x'
            invariant
                i < j <= n,
                n == cs@.len(),
                forall|k: int| i < k < j ==> cs@[k] != 'x',
            decreases n - j,
        {
            j = j + 1;
        }
        proof {
            assert(x_split_at(cs@, i as int, j as int));
            assert forall|i2: int, j2: int|
                x_split_at(cs@, i2, j2) implies i2 == i as int && j2 == j as int by {
                if i2 < i {
                    assert(cs@[i2] != 'x');
                }
                if (i as int) < i2 {
                    assert(cs@[i as int] != 'x');
                }
                if j2 < j {
                    assert(cs@[j2] != 'x');
                }
                if (j as int) < j2 {
                    assert(cs@[j as int] != 'x');
                }
            }
        }
        let w = parse_u32_segment(&cs, 0, i);
        let h = parse_u32_segment(&cs, i + 1, j);
        match (w, h) {
            (Some(width), Some(height)) => Ok(ImageSize::Sized { width, height }),
            _ => Err(SizeParseError::ParseIntError),
        }
    }
}

} // verus!
