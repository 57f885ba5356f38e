//! Strings as sequences of characters: decimal numbers and padding.
use vstd::prelude::*;

verus! {

/// `String::push` appends one character at the end and changes nothing else.
pub assume_specification[ String::push ](s: &mut String, c: char)
    ensures
        final(s)@ == old(s)@.push(c),
;

/// `String::push_str` appends the given text at the end and changes nothing else.
pub assume_specification[ String::push_str ](s: &mut String, text: &str)
    ensures
        final(s)@ == old(s)@ + text@,
;

/// The decimal digit `d`.
pub open spec fn digit(d: nat) -> char {
    (('0' as u32) + d) as char
}

/// The decimal notation of `n`, without leading zeros.
pub open spec fn dec(n: nat) -> Seq<char>
    decreases n,
{
    if n < 10 {
        seq![digit(n)]
    } else {
        dec(n / 10).push(digit(n % 10))
    }
}

/// The decimal notation of a signed number: a minus sign before negative ones.
pub open spec fn dec_signed(n: int) -> Seq<char> {
    if n < 0 {
        seq!['-'] + dec((-n) as nat)
    } else {
        dec(n as nat)
    }
}

/// `n` copies of `c`.
pub open spec fn repeated(c: char, n: nat) -> Seq<char> {
    Seq::new(n, |i: int| c)
}

/// `s`, filled up on the left to at least `width` characters.
pub open spec fn pad_left(s: Seq<char>, width: nat, fill: char) -> Seq<char> {
    if s.len() < width {
        repeated(fill, (width - s.len()) as nat) + s
    } else {
        s
    }
}

/// `s`, filled up on the right to at least `width` characters.
pub open spec fn pad_right(s: Seq<char>, width: nat, fill: char) -> Seq<char> {
    if s.len() < width {
        s + repeated(fill, (width - s.len()) as nat)
    } else {
        s
    }
}

/// The number that decimal digits stand for, the first one counting most.
pub open spec fn number_of(digits: Seq<char>) -> int
    decreases digits.len(),
{
    if digits.len() == 0 {
        0
    } else {
        10 * number_of(digits.drop_last()) + (digits.last() as int - '0' as int)
    }
}

/// The decimal notation of a number is made of digits, stands for that number,
/// and has no zero in front.
pub proof fn law_decimal_stands_for_its_number(n: nat)
    ensures
        number_of(dec(n)) == n,
        dec(n).len() > 0,
        forall|i: int| 0 <= i < dec(n).len() ==> '0' <= #[trigger] dec(n)[i] <= '9',
        n > 0 ==> dec(n)[0] != '0',
        n < 10 <==> dec(n).len() == 1,
    decreases n,
{
    let d = n % 10;
    assert(dec(n).last() == digit(d));
    assert(digit(d) as int == '0' as int + d);
    if n >= 10 {
        law_decimal_stands_for_its_number(n / 10);
        assert(dec(n).drop_last() =~= dec(n / 10));
        assert forall|i: int| 0 <= i < dec(n).len() implies '0' <= #[trigger] dec(n)[i] <= '9' by {
            if i < dec(n).len() - 1 {
                assert(dec(n)[i] == dec(n / 10)[i]);
            }
        }
        assert(dec(n)[0] == dec(n / 10)[0]);
    } else {
        assert(dec(n).drop_last() =~= Seq::empty());
        assert(number_of(dec(n).drop_last()) == 0);
    }
}

/// Different numbers are written differently.
pub proof fn law_decimals_differ(a: nat, b: nat)
    requires
        dec(a) == dec(b),
    ensures
        a == b,
{
    law_decimal_stands_for_its_number(a);
    law_decimal_stands_for_its_number(b);
}

/// A signed number is written with a minus sign exactly where it is negative, and
/// then as the number without its sign.
pub proof fn law_signed_decimals(n: int)
    ensures
        n < 0 ==> dec_signed(n).len() > 0 && dec_signed(n)[0] == '-' && number_of(
            dec_signed(n).skip(1),
        ) == -n,
        n >= 0 ==> number_of(dec_signed(n)) == n && dec_signed(n)[0] != '-',
{
    if n < 0 {
        law_decimal_stands_for_its_number((-n) as nat);
        assert(dec_signed(n).skip(1) =~= dec((-n) as nat));
    } else {
        law_decimal_stands_for_its_number(n as nat);
    }
}

/// Filling up a text keeps all of it, at the end where it is filled up on the
/// left and at the beginning where it is filled up on the right. The rest is the
/// filling, and there is no more of it than the width asks for.
pub proof fn law_filling_keeps_the_text(s: Seq<char>, width: nat, fill: char)
    ensures
        ({
            let left = pad_left(s, width, fill);
            let right = pad_right(s, width, fill);
            let more = left.len() - s.len();
            &&& left.len() == if s.len() < width {
                width
            } else {
                s.len()
            }
            &&& right.len() == left.len()
            &&& left.skip(more) == s
            &&& forall|i: int| 0 <= i < more ==> #[trigger] left[i] == fill
            &&& right.take(s.len() as int) == s
            &&& forall|i: int| s.len() <= i < right.len() ==> #[trigger] right[i] == fill
        }),
{
    let left = pad_left(s, width, fill);
    let right = pad_right(s, width, fill);
    assert(left.skip(left.len() - s.len()) =~= s);
    assert(right.take(s.len() as int) =~= s);
}

/// Appends the decimal notation of `n`.
pub fn push_dec(out: &mut String, n: u64)
    ensures
        final(out)@ == old(out)@ + dec(n as nat),
    decreases n,
{
    if n >= 10 {
        push_dec(out, n / 10);
    }
    let d: u8 = (n % 10) as u8;
    out.push((48u8 + d) as char);
    proof {
        assert(out@ =~= old(out)@ + dec(n as nat));
    }
}

/// The decimal notation of `n`.
pub fn dec_string(n: u64) -> (r: String)
    ensures
        r@ == dec(n as nat),
{
    let mut out: String = String::new();
    push_dec(&mut out, n);
    proof {
        assert(out@ =~= dec(n as nat));
    }
    out
}

/// Appends the decimal notation of the signed number `n`.
pub fn push_dec_signed(out: &mut String, n: i64)
    ensures
        final(out)@ == old(out)@ + dec_signed(n as int),
{
    if n < 0 {
        out.push('-');
        let magnitude: u64 = (-(n as i128)) as u64;
        push_dec(out, magnitude);
        proof {
            assert(out@ =~= old(out)@ + dec_signed(n as int));
        }
    } else {
        push_dec(out, n as u64);
    }
}

/// The texts of a list of strings.
pub open spec fn texts(list: Seq<String>) -> Seq<Seq<char>> {
    Seq::new(list.len(), |i: int| list[i]@)
}

/// One more element of a sequence joins the set of those before it.
pub proof fn lemma_take_more<A>(s: Seq<A>, n: int)
    requires
        0 <= n < s.len(),
    ensures
        s.take(n + 1).to_set() == s.take(n).to_set().insert(s[n]),
{
    let front = s.take(n);
    let more = s.take(n + 1);
    assert forall|x: A| #[trigger] more.to_set().contains(x) == front.to_set().insert(s[n]).contains(
        x,
    ) by {
        if more.contains(x) && x != s[n] {
            let i = choose|i: int| 0 <= i < more.len() && more[i] == x;
            assert(front[i] == x);
        }
        if front.contains(x) {
            let i = choose|i: int| 0 <= i < front.len() && front[i] == x;
            assert(more[i] == x);
        }
        assert(more[n] == s[n]);
    }
    assert(more.to_set() =~= front.to_set().insert(s[n]));
}

/// Two texts, one behind the other.
pub fn joined(first: &str, second: &str) -> (r: String)
    ensures
        r@ == first@ + second@,
{
    let mut out: String = first.to_owned();
    out.push_str(second);
    out
}

/// A text followed by a number.
pub fn with_number(text: &str, n: u64) -> (r: String)
    ensures
        r@ == text@ + dec(n as nat),
{
    let mut out: String = text.to_owned();
    push_dec(&mut out, n);
    out
}

/// A text of its own with the characters of `s`.
pub fn owned(s: &str) -> (r: String)
    ensures
        r@ == s@,
{
    s.to_owned()
}

/// The characters of a text, one by one.
pub fn chars_of(s: &str) -> (r: Vec<char>)
    ensures
        r@ == s@,
{
    let mut r: Vec<char> = Vec::new();
    for c in it: s.chars()
        invariant
            it.seq() == s@,
            r@ == s@.take(it.index() as int),
    {
        r.push(c);
        proof {
            assert(s@.take(it.index() + 1) =~= s@.take(it.index() as int).push(s@[it.index() as int]));
        }
    }
    proof {
        assert(s@.take(s@.len() as int) =~= s@);
    }
    r
}

/// Whether a character is one of the control characters of ASCII.
pub open spec fn is_control(c: char) -> bool {
    (c as u32) < 0x20 || c as u32 == 0x7f
}

/// A text without the control characters of ASCII.
pub open spec fn without_controls(s: Seq<char>) -> Seq<char> {
    s.filter(|c: char| !is_control(c))
}

/// Appends a text without its control characters.
pub fn push_without_controls(out: &mut String, text: &str)
    ensures
        final(out)@ == old(out)@ + without_controls(text@),
{
    let chars = chars_of(text);
    let mut i: usize = 0;
    proof {
        reveal(Seq::filter);
        assert(out@ =~= old(out)@ + without_controls(text@.take(0)));
    }
    while i < chars.len()
        invariant
            0 <= i <= chars@.len(),
            chars@ == text@,
            out@ == old(out)@ + without_controls(text@.take(i as int)),
        decreases chars@.len() - i,
    {
        let c = chars[i];
        let code: u32 = c as u32;
        proof {
            reveal(Seq::filter);
            assert(text@.take(i + 1).drop_last() =~= text@.take(i as int));
            assert(text@.take(i + 1).last() == c);
        }
        if !(code < 0x20 || code == 0x7f) {
            out.push(c);
        }
        proof {
            assert(out@ =~= old(out)@ + without_controls(text@.take(i + 1)));
        }
        i += 1;
    }
    proof {
        assert(text@.take(text@.len() as int) =~= text@);
    }
}

/// A text that was freed of control characters has none.
pub proof fn law_no_controls_left(s: Seq<char>, i: int)
    requires
        0 <= i < without_controls(s).len(),
    ensures
        !is_control(without_controls(s)[i]),
{
    s.lemma_filter_pred(|c: char| !is_control(c), i);
}

/// A text without control characters is left as it is.
pub proof fn law_plain_text_is_kept(s: Seq<char>)
    requires
        forall|i: int| 0 <= i < s.len() ==> !is_control(#[trigger] s[i]),
    ensures
        without_controls(s) == s,
    decreases s.len(),
{
    reveal(Seq::filter);
    if s.len() > 0 {
        law_plain_text_is_kept(s.drop_last());
        assert(s.drop_last().push(s.last()) =~= s);
    }
}

/// The text of a part of a list of characters.
pub fn text_between(chars: &Vec<char>, from: usize, to: usize) -> (r: String)
    requires
        from <= to <= chars@.len(),
    ensures
        r@ == chars@.subrange(from as int, to as int),
{
    let mut out: String = String::new();
    let mut i: usize = from;
    proof {
        assert(out@ =~= chars@.subrange(from as int, from as int));
    }
    while i < to
        invariant
            from <= i <= to <= chars@.len(),
            out@ == chars@.subrange(from as int, i as int),
        decreases to - i,
    {
        out.push(chars[i]);
        proof {
            assert(out@ =~= chars@.subrange(from as int, i + 1));
        }
        i += 1;
    }
    out
}

/// Where the first line of a text ends.
pub open spec fn line_end(s: Seq<char>) -> nat
    decreases s.len(),
{
    if s.len() == 0 || s[0] == '\n' {
        0
    } else {
        1 + line_end(s.drop_first())
    }
}

/// A line without the carriage return before its end.
pub open spec fn without_cr(line: Seq<char>) -> Seq<char> {
    if line.len() > 0 && line.last() == '\r' {
        line.drop_last()
    } else {
        line
    }
}

/// The lines of a text. A line ends with a line feed, or a carriage return and
/// a line feed; the last one needs no end.
pub open spec fn lines(s: Seq<char>) -> Seq<Seq<char>>
    decreases s.len(),
{
    if s.len() == 0 {
        Seq::empty()
    } else if line_end(s) >= s.len() {
        seq![s]
    } else {
        seq![without_cr(s.take(line_end(s) as int))] + lines(s.skip((line_end(s) + 1) as int))
    }
}

proof fn lemma_line_end(s: Seq<char>, i: int)
    requires
        0 <= i <= s.len(),
        forall|j: int| 0 <= j < i ==> s[j] != '\n',
        i < s.len() ==> s[i] == '\n',
    ensures
        line_end(s) == i,
    decreases s.len(),
{
    if i > 0 {
        lemma_line_end(s.drop_first(), i - 1);
    }
}

/// No line holds the end of a line.
pub proof fn law_lines_hold_no_line_feed(s: Seq<char>, i: int, j: int)
    requires
        0 <= i < lines(s).len(),
        0 <= j < lines(s)[i].len(),
    ensures
        lines(s)[i][j] != '\n',
    decreases s.len(),
{
    let end = line_end(s) as int;
    lemma_line_end_is_first(s);
    if s.len() > 0 && end < s.len() {
        let first = seq![without_cr(s.take(end))];
        let others = lines(s.skip(end + 1));
        assert(lines(s) == first + others);
        if i > 0 {
            law_lines_hold_no_line_feed(s.skip(end + 1), i - 1, j);
        } else {
            assert(lines(s)[0] == without_cr(s.take(end)));
            assert(without_cr(s.take(end))[j] == s[j]);
        }
    }
}

proof fn lemma_line_end_is_first(s: Seq<char>)
    ensures
        line_end(s) <= s.len(),
        forall|j: int| 0 <= j < line_end(s) ==> #[trigger] s[j] != '\n',
        line_end(s) < s.len() ==> s[line_end(s) as int] == '\n',
    decreases s.len(),
{
    if s.len() > 0 && s[0] != '\n' {
        let rest = s.drop_first();
        lemma_line_end_is_first(rest);
        assert forall|j: int| 0 <= j < line_end(s) implies #[trigger] s[j] != '\n' by {
            if j > 0 {
                assert(s[j] == rest[j - 1]);
            }
        }
        assert(line_end(s) < s.len() ==> s[line_end(s) as int] == rest[line_end(rest) as int]);
    }
}

/// A text is its first line and the lines of what comes behind it. A line without
/// an end is a line of its own, and a text of nothing has no lines.
pub proof fn law_lines_come_one_by_one(first: Seq<char>, others: Seq<char>)
    requires
        forall|i: int| 0 <= i < first.len() ==> #[trigger] first[i] != '\n',
        first.len() > 0 ==> first.last() != '\r',
    ensures
        lines(first + seq!['\n'] + others) == seq![first] + lines(others),
        lines(first + seq!['\r', '\n'] + others) == seq![first] + lines(others),
        first.len() > 0 ==> lines(first) == seq![first],
        lines(Seq::empty()).len() == 0,
{
    let unix = first + seq!['\n'] + others;
    let dos = first + seq!['\r', '\n'] + others;
    let n = first.len() as int;
    assert forall|j: int| 0 <= j < n implies unix[j] != '\n' && dos[j] != '\n' by {
        assert(unix[j] == first[j] && dos[j] == first[j]);
    }
    lemma_line_end(unix, n);
    assert(unix.take(n) =~= first);
    assert(unix.skip(n + 1) =~= others);
    assert(lines(unix) =~= seq![first] + lines(others));
    assert(dos[n] == '\r');
    assert(dos[n + 1] == '\n');
    assert forall|j: int| 0 <= j < n + 1 implies dos[j] != '\n' by {
        if j < n {
            assert(dos[j] == first[j]);
        }
    }
    lemma_line_end(dos, n + 1);
    assert(dos.take(n + 1) =~= first.push('\r'));
    assert(first.push('\r').drop_last() =~= first);
    assert(dos.skip(n + 2) =~= others);
    assert(lines(dos) =~= seq![first] + lines(others));
    if n > 0 {
        lemma_line_end(first, n);
    }
}

/// The lines of a text, one by one.
pub fn lines_of(text: &str) -> (r: Vec<String>)
    ensures
        texts(r@) == lines(text@),
{
    let chars = chars_of(text);
    let mut r: Vec<String> = Vec::new();
    let mut start: usize = 0;
    proof {
        assert(text@.skip(0) =~= text@);
        assert(texts(r@) + lines(text@.skip(0)) =~= lines(text@));
    }
    while start < chars.len()
        invariant
            chars@ == text@,
            start <= chars@.len(),
            texts(r@) + lines(text@.skip(start as int)) == lines(text@),
        decreases chars@.len() - start,
    {
        let mut end: usize = start;
        while end < chars.len() && chars[end] != '\n'
            invariant
                chars@ == text@,
                start <= end <= chars@.len(),
                forall|j: int| start <= j < end ==> chars@[j] != '\n',
            decreases chars@.len() - end,
        {
            end += 1;
        }
        let ghost before = texts(r@);
        let ghost left = text@.skip(start as int);
        proof {
            lemma_line_end(left, end - start);
        }
        if end == chars.len() {
            r.push(text_between(&chars, start, end));
            proof {
                assert(text@.subrange(start as int, end as int) =~= left);
                assert(texts(r@) =~= before + seq![left]);
                assert(lines(left) =~= seq![left]);
                assert(text@.skip(end as int) =~= Seq::empty());
                assert(texts(r@) + lines(text@.skip(end as int)) =~= lines(text@));
            }
            start = end;
        } else {
            let cut: usize = if end > start && chars[end - 1] == '\r' {
                end - 1
            } else {
                end
            };
            r.push(text_between(&chars, start, cut));
            proof {
                let line = left.take(end - start);
                assert(without_cr(line) =~= text@.subrange(start as int, cut as int));
                assert(left.skip(end - start + 1) =~= text@.skip(end + 1));
                assert(texts(r@) =~= before + seq![without_cr(line)]);
                assert(lines(left) == seq![without_cr(line)] + lines(text@.skip(end + 1)));
                assert(texts(r@) + lines(text@.skip(end + 1)) =~= before + lines(left));
            }
            start = end + 1;
        }
    }
    proof {
        assert(text@.skip(start as int) =~= Seq::empty());
        assert(texts(r@) + lines(text@.skip(start as int)) =~= texts(r@));
    }
    r
}

/// Texts one behind the other, with a separator between them.
pub open spec fn join(parts: Seq<Seq<char>>, separator: Seq<char>) -> Seq<char>
    decreases parts.len(),
{
    if parts.len() == 0 {
        Seq::empty()
    } else if parts.len() == 1 {
        parts[0]
    } else {
        join(parts.drop_last(), separator) + separator + parts.last()
    }
}

/// To join texts is to write them one behind the other, with the separator
/// before each but the first.
pub proof fn law_join_puts_separators_between(
    parts: Seq<Seq<char>>,
    part: Seq<char>,
    separator: Seq<char>,
)
    ensures
        join(Seq::empty(), separator).len() == 0,
        join(seq![part], separator) == part,
        parts.len() > 0 ==> join(parts.push(part), separator) == join(parts, separator) + separator
            + part,
{
    assert(parts.push(part).drop_last() =~= parts);
}

/// The texts from `from` on, with a separator between them.
pub fn join_from(parts: &Vec<String>, from: usize, separator: &str) -> (r: String)
    requires
        from <= parts@.len(),
    ensures
        r@ == join(texts(parts@).skip(from as int), separator@),
{
    let mut out: String = String::new();
    let mut i: usize = from;
    let ghost all = texts(parts@).skip(from as int);
    proof {
        assert(all.take(0) =~= Seq::empty());
    }
    while i < parts.len()
        invariant
            from <= i <= parts@.len(),
            all == texts(parts@).skip(from as int),
            out@ == join(all.take(i - from), separator@),
        decreases parts@.len() - i,
    {
        proof {
            assert(all.take(i + 1 - from).drop_last() =~= all.take(i - from));
            assert(all.take(i + 1 - from).last() == parts@[i as int]@);
        }
        if i > from {
            out.push_str(separator);
            out.push_str(&parts[i]);
        } else {
            out.push_str(&parts[i]);
            proof {
                assert(out@ =~= parts@[i as int]@);
            }
        }
        i += 1;
    }
    proof {
        assert(all.take(i - from) =~= all);
    }
    out
}

/// Appends `n` copies of a character.
pub fn push_repeated(out: &mut String, c: char, n: usize)
    ensures
        final(out)@ == old(out)@ + repeated(c, n as nat),
{
    let mut i: usize = 0;
    proof {
        assert(out@ =~= old(out)@ + repeated(c, 0));
    }
    while i < n
        invariant
            i <= n,
            out@ == old(out)@ + repeated(c, i as nat),
        decreases n - i,
    {
        out.push(c);
        i += 1;
        proof {
            assert(out@ =~= old(out)@ + repeated(c, i as nat));
        }
    }
}

/// A text, filled up with blanks on the left.
pub fn padded_left(text: &str, width: usize) -> (r: String)
    ensures
        r@ == pad_left(text@, width as nat, ' '),
{
    let len: usize = chars_of(text).len();
    let mut out: String = String::new();
    if len < width {
        push_repeated(&mut out, ' ', width - len);
        proof {
            assert(out@ =~= repeated(' ', (width - len) as nat));
        }
        out.push_str(text);
    } else {
        out.push_str(text);
        proof {
            assert(out@ =~= text@);
        }
    }
    out
}

/// A text, filled up with blanks on the right.
pub fn padded_right(text: &str, width: usize) -> (r: String)
    ensures
        r@ == pad_right(text@, width as nat, ' '),
{
    let len: usize = chars_of(text).len();
    let mut out: String = text.to_owned();
    if len < width {
        push_repeated(&mut out, ' ', width - len);
    }
    out
}

/// Whether a text is made of the same characters as another one.
pub fn is_text(text: &String, other: &str) -> (r: bool)
    ensures
        r == (text@ == other@),
{
    *text == other.to_owned()
}

} // verus!
