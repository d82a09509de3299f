//! Text as sequences of characters: classes, bounds, trimming and safe output.
use vstd::prelude::*;
use vstd::utf8::*;

verus! {

/// `String::push` appends one character.
pub assume_specification[ String::push ](s: &mut String, c: char)
    ensures
        final(s)@ == old(s)@.push(c),
;

/// `String::pop` takes the last character off, if there is one.
pub assume_specification[ String::pop ](s: &mut String) -> (c: Option<char>)
    ensures
        old(s)@.len() == 0 ==> c is None && final(s)@ == old(s)@,
        old(s)@.len() > 0 ==> c == Some(old(s)@.last()) && final(s)@ == old(s)@.drop_last(),
;

/// `String::clear` leaves no character.
pub assume_specification[ String::clear ](s: &mut String)
    ensures
        final(s)@ == Seq::<char>::empty(),
;

/// `String::push_str` appends a text.
pub assume_specification[ String::push_str ](s: &mut String, t: &str)
    ensures
        final(s)@ == old(s)@ + t@,
;

/// The number of bytes that a text takes in UTF-8.
pub open spec fn utf8_len(s: Seq<char>) -> nat {
    encode_utf8(s).len()
}

/// Characters of the general category Cc.
pub open spec fn is_control_char(c: char) -> bool {
    c as u32 <= 0x1f || 0x7f <= c as u32 <= 0x9f
}

/// Characters with the Unicode property White_Space.
pub open spec fn is_whitespace_char(c: char) -> bool {
    ||| 0x09 <= c as u32 <= 0x0d
    ||| c as u32 == 0x20
    ||| c as u32 == 0x85
    ||| c as u32 == 0xa0
    ||| c as u32 == 0x1680
    ||| 0x2000 <= c as u32 <= 0x200a
    ||| c as u32 == 0x2028
    ||| c as u32 == 0x2029
    ||| c as u32 == 0x202f
    ||| c as u32 == 0x205f
    ||| c as u32 == 0x3000
}

/// Some character of the text is a control character.
pub open spec fn has_control(s: Seq<char>) -> bool {
    exists|i: int| 0 <= i < s.len() && is_control_char(#[trigger] s[i])
}

/// The text without its leading white space.
pub open spec fn trimmed_start(s: Seq<char>) -> Seq<char>
    decreases s.len(),
{
    if s.len() > 0 && is_whitespace_char(s[0]) {
        trimmed_start(s.drop_first())
    } else {
        s
    }
}

/// The text without its trailing white space.
pub open spec fn trimmed_end(s: Seq<char>) -> Seq<char>
    decreases s.len(),
{
    if s.len() > 0 && is_whitespace_char(s.last()) {
        trimmed_end(s.drop_last())
    } else {
        s
    }
}

/// The text without white space at either end.
pub open spec fn trimmed(s: Seq<char>) -> Seq<char> {
    trimmed_end(trimmed_start(s))
}

/// Whether a character may reach the terminal: every control character but newline and tab
/// is held back.
pub open spec fn is_safe_char(c: char) -> bool {
    !is_control_char(c) || c == '\n' || c == '\t'
}

/// The safe characters of a text, in their order.
pub open spec fn safe(s: Seq<char>) -> Seq<char> {
    s.filter(|c: char| is_safe_char(c))
}

/// The text with each newline written as carriage return and newline.
pub open spec fn raw_lines(s: Seq<char>) -> Seq<char>
    decreases s.len(),
{
    if s.len() == 0 {
        s
    } else if s.last() == '\n' {
        raw_lines(s.drop_last()).push('\r').push('\n')
    } else {
        raw_lines(s.drop_last()).push(s.last())
    }
}

/// Whether a character is a control character.
pub fn is_control(c: char) -> (b: bool)
    ensures
        b == is_control_char(c),
{
    let code: u32 = c as u32;
    code <= 0x1f || (0x7f <= code && code <= 0x9f)
}

/// Whether a character is white space.
pub fn is_whitespace(c: char) -> (b: bool)
    ensures
        b == is_whitespace_char(c),
{
    let code: u32 = c as u32;
    (0x09 <= code && code <= 0x0d) || code == 0x20 || code == 0x85 || code == 0xa0 || code == 0x1680
        || (0x2000 <= code && code <= 0x200a) || code == 0x2028 || code == 0x2029 || code == 0x202f
        || code == 0x205f || code == 0x3000
}

/// The length of a text in bytes.
pub fn byte_len(text: &str) -> (n: usize)
    ensures
        n == utf8_len(text@),
{
    text.as_bytes().len()
}

/// The characters of a text.
pub fn chars_of(text: &str) -> (chars: Vec<char>)
    ensures
        chars@ == text@,
{
    let mut chars: Vec<char> = Vec::new();
    for c in it: text.chars()
        invariant
            chars@ == it.seq().take(it.index() as int),
            it.seq() == text@,
    {
        chars.push(c);
    }
    chars
}

/// The text made of the characters from `from` up to `to`.
pub fn string_of(chars: &Vec<char>, from: usize, to: usize) -> (text: String)
    requires
        from <= to <= chars@.len(),
    ensures
        text@ == chars@.subrange(from as int, to as int),
{
    let mut text = String::new();
    let mut i: usize = from;
    while i < to
        invariant
            from <= i <= to <= chars@.len(),
            text@ == chars@.subrange(from as int, i as int),
        decreases to - i,
    {
        text.push(chars[i]);
        assert(chars@.subrange(from as int, i + 1) =~= chars@.subrange(from as int, i as int).push(
            chars@[i as int],
        ));
        i = i + 1;
    }
    text
}

/// Two texts with the same bytes are the same text.
pub proof fn lemma_utf8_injective(a: Seq<char>, b: Seq<char>)
    requires
        encode_utf8(a) == encode_utf8(b),
    ensures
        a == b,
{
    encode_utf8_decode_utf8(a);
    encode_utf8_decode_utf8(b);
}

/// The encoding of two texts one after the other is the two encodings one after the other.
pub proof fn lemma_utf8_add(a: Seq<char>, b: Seq<char>)
    ensures
        encode_utf8(a + b) == encode_utf8(a) + encode_utf8(b),
        utf8_len(a + b) == utf8_len(a) + utf8_len(b),
    decreases a.len(),
{
    if a.len() == 0 {
        assert(a + b =~= b);
        assert(encode_utf8(a) + encode_utf8(b) =~= encode_utf8(b));
    } else {
        lemma_utf8_add(a.drop_first(), b);
        assert((a + b).drop_first() =~= a.drop_first() + b);
        assert(encode_utf8(a) + encode_utf8(b) =~= encode_scalar(a[0] as u32) + (encode_utf8(
            a.drop_first(),
        ) + encode_utf8(b)));
    }
}

/// Whether two texts are equal.
pub fn text_eq(a: &str, b: &str) -> (same: bool)
    ensures
        same == (a@ == b@),
{
    let left = a.as_bytes();
    let right = b.as_bytes();
    if left.len() != right.len() {
        return false;
    }
    let mut i: usize = 0;
    while i < left.len()
        invariant
            i <= left@.len(),
            left@.len() == right@.len(),
            left@ == encode_utf8(a@),
            right@ == encode_utf8(b@),
            left@.take(i as int) == right@.take(i as int),
        decreases left@.len() - i,
    {
        if left[i] != right[i] {
            return false;
        }
        assert(left@.take(i + 1) =~= left@.take(i as int).push(left@[i as int]));
        assert(right@.take(i + 1) =~= right@.take(i as int).push(right@[i as int]));
        i = i + 1;
    }
    proof {
        assert(left@.take(i as int) =~= left@);
        assert(right@.take(i as int) =~= right@);
        lemma_utf8_injective(a@, b@);
    }
    true
}

/// Whether a text holds a control character.
pub fn contains_control(text: &str) -> (b: bool)
    ensures
        b == has_control(text@),
{
    for c in it: text.chars()
        invariant
            it.seq() == text@,
            forall|i: int| 0 <= i < it.index() ==> !is_control_char(#[trigger] text@[i]),
    {
        if is_control(c) {
            assert(is_control_char(text@[it.index() as int]));
            return true;
        }
    }
    false
}

/// What one more character adds to the safe part of a text.
proof fn lemma_safe_push(s: Seq<char>, c: char)
    ensures
        safe(s.push(c)) == if is_safe_char(c) {
            safe(s).push(c)
        } else {
            safe(s)
        },
{
    reveal(Seq::filter);
    assert(s.push(c).drop_last() =~= s);
}

/// Keeps from untrusted text what may reach the terminal.
pub fn safe_text(text: &str) -> (out: String)
    ensures
        out@ == safe(text@),
{
    let mut out = String::new();
    proof {
        reveal(Seq::filter);
        assert(text@.take(0) =~= Seq::<char>::empty());
    }
    for c in it: text.chars()
        invariant
            it.seq() == text@,
            out@ == safe(text@.take(it.index() as int)),
    {
        proof {
            assert(text@.take(it.index() + 1) =~= text@.take(it.index() as int).push(c));
            lemma_safe_push(text@.take(it.index() as int), c);
        }
        if !is_control(c) || c == '\n' || c == '\t' {
            out.push(c);
        }
    }
    assert(text@.take(text@.len() as int) =~= text@);
    out
}

/// What is printed of untrusted text on a terminal in raw mode.
pub open spec fn terminal(s: Seq<char>) -> Seq<char> {
    raw_lines(safe(s))
}

/// Prepares untrusted text for a terminal in raw mode.
pub fn terminal_text(text: &str) -> (out: String)
    ensures
        out@ == terminal(text@),
{
    let kept = safe_text(text);
    let shown = kept.as_str();
    let mut out = String::new();
    assert(shown@.take(0) =~= Seq::<char>::empty());
    for c in it: shown.chars()
        invariant
            it.seq() == shown@,
            out@ == raw_lines(shown@.take(it.index() as int)),
    {
        proof {
            assert(shown@.take(it.index() + 1) =~= shown@.take(it.index() as int).push(c));
            assert(shown@.take(it.index() + 1).drop_last() =~= shown@.take(it.index() as int));
        }
        if c == '\n' {
            out.push('\r');
        }
        out.push(c);
    }
    assert(shown@.take(shown@.len() as int) =~= shown@);
    out
}

/// Where the leading white space of a stretch of characters ends.
pub fn skip_whitespace(chars: &Vec<char>, from: usize, to: usize) -> (start: usize)
    requires
        from <= to <= chars@.len(),
    ensures
        from <= start <= to,
        chars@.subrange(start as int, to as int) == trimmed_start(
            chars@.subrange(from as int, to as int),
        ),
{
    let mut start: usize = from;
    while start < to && is_whitespace(chars[start])
        invariant
            from <= start <= to <= chars@.len(),
            trimmed_start(chars@.subrange(start as int, to as int)) == trimmed_start(
                chars@.subrange(from as int, to as int),
            ),
        decreases to - start,
    {
        assert(chars@.subrange(start as int, to as int).drop_first() =~= chars@.subrange(
            start + 1,
            to as int,
        ));
        start = start + 1;
    }
    start
}

/// Where the trailing white space of a stretch of characters begins.
pub fn skip_whitespace_back(chars: &Vec<char>, from: usize, to: usize) -> (end: usize)
    requires
        from <= to <= chars@.len(),
    ensures
        from <= end <= to,
        chars@.subrange(from as int, end as int) == trimmed_end(
            chars@.subrange(from as int, to as int),
        ),
{
    let mut end: usize = to;
    while from < end && is_whitespace(chars[end - 1])
        invariant
            from <= end <= to <= chars@.len(),
            trimmed_end(chars@.subrange(from as int, end as int)) == trimmed_end(
                chars@.subrange(from as int, to as int),
            ),
        decreases end,
    {
        assert(chars@.subrange(from as int, end as int).drop_last() =~= chars@.subrange(
            from as int,
            end - 1,
        ));
        end = end - 1;
    }
    end
}

/// The text without white space at either end.
pub fn trim(text: &str) -> (out: String)
    ensures
        out@ == trimmed(text@),
{
    let chars = chars_of(text);
    let len = chars.len();
    let start = skip_whitespace(&chars, 0, len);
    let end = skip_whitespace_back(&chars, start, len);
    assert(chars@.subrange(0, len as int) =~= text@);
    string_of(&chars, start, end)
}

/// The character of a decimal or hexadecimal digit.
pub open spec fn digit_char(d: nat) -> char {
    if d < 10 {
        (0x30 + d) as char
    } else {
        (0x57 + d) as char
    }
}

/// A number in decimal.
pub open spec fn decimal(n: nat) -> Seq<char>
    decreases n,
{
    if n < 10 {
        seq![digit_char(n)]
    } else {
        decimal(n / 10).push(digit_char(n % 10))
    }
}

/// Two texts without control characters make one without them.
pub proof fn lemma_control_add(a: Seq<char>, b: Seq<char>)
    requires
        !has_control(a),
        !has_control(b),
    ensures
        !has_control(a + b),
{
    let s = a + b;
    assert forall|i: int| 0 <= i < s.len() implies !is_control_char(#[trigger] s[i]) by {
        if i < a.len() {
            assert(s[i] == a[i]);
        } else {
            assert(s[i] == b[i - a.len()]);
        }
    }
}

/// A number in decimal has no control characters.
pub proof fn lemma_decimal_control(n: nat)
    ensures
        !has_control(decimal(n)),
    decreases n,
{
    if n >= 10 {
        lemma_decimal_control(n / 10);
        let last = seq![digit_char(n % 10)];
        assert(!is_control_char(last[0]));
        lemma_control_add(decimal(n / 10), last);
        assert(decimal(n) =~= decimal(n / 10) + last);
    } else {
        assert(!is_control_char(decimal(n)[0]));
    }
}

/// Bytes in lower-case hexadecimal, two digits for each byte.
pub open spec fn lower_hex(bytes: Seq<u8>) -> Seq<char>
    decreases bytes.len(),
{
    if bytes.len() == 0 {
        Seq::empty()
    } else {
        lower_hex(bytes.drop_last()).push(digit_char((bytes.last() / 16) as nat)).push(
            digit_char((bytes.last() % 16) as nat),
        )
    }
}

/// Two byte strings that are written alike are the same.
pub proof fn lemma_lower_hex_injective(a: Seq<u8>, b: Seq<u8>)
    requires
        lower_hex(a) == lower_hex(b),
    ensures
        a == b,
    decreases a.len(),
{
    if a.len() == 0 || b.len() == 0 {
        if a.len() > 0 {
            assert(lower_hex(a).len() > 0);
        }
        if b.len() > 0 {
            assert(lower_hex(b).len() > 0);
        }
        assert(a =~= b);
    } else {
        let s = lower_hex(a);
        let t = lower_hex(b);
        let n = s.len();
        assert(s[n - 1] == digit_char((a.last() % 16) as nat));
        assert(t[n - 1] == digit_char((b.last() % 16) as nat));
        assert(s[n - 2] == digit_char((a.last() / 16) as nat));
        assert(t[n - 2] == digit_char((b.last() / 16) as nat));
        assert(s.take(n - 2) =~= lower_hex(a.drop_last()));
        assert(t.take(n - 2) =~= lower_hex(b.drop_last()));
        lemma_lower_hex_injective(a.drop_last(), b.drop_last());
        assert(a =~= a.drop_last().push(a.last()));
        assert(b =~= b.drop_last().push(b.last()));
    }
}

/// The character of one digit.
fn digit(d: u8) -> (c: char)
    requires
        d < 16,
    ensures
        c == digit_char(d as nat),
{
    if d < 10 {
        (0x30 + d) as char
    } else {
        (0x57 + d) as char
    }
}

/// Writes a number in decimal.
pub fn decimal_text(n: u64) -> (text: String)
    ensures
        text@ == decimal(n as nat),
    decreases n,
{
    let last = digit((n % 10) as u8);
    let mut text = if n < 10 {
        String::new()
    } else {
        decimal_text(n / 10)
    };
    text.push(last);
    assert(n < 10 ==> text@ =~= seq![digit_char(n as nat)]);
    text
}

/// Writes bytes in lower-case hexadecimal.
pub fn lower_hex_text(bytes: &[u8]) -> (text: String)
    ensures
        text@ == lower_hex(bytes@),
{
    let mut text = String::new();
    let mut i: usize = 0;
    while i < bytes.len()
        invariant
            i <= bytes@.len(),
            text@ == lower_hex(bytes@.take(i as int)),
        decreases bytes@.len() - i,
    {
        let byte = bytes[i];
        text.push(digit(byte / 16));
        text.push(digit(byte % 16));
        assert(bytes@.take(i + 1).drop_last() =~= bytes@.take(i as int));
        i = i + 1;
    }
    assert(bytes@.take(i as int) =~= bytes@);
    text
}

/// Nothing but newline and tab is left of the control characters in a text made safe.
pub proof fn law_safe_text_has_no_terminal_controls(s: Seq<char>)
    ensures
        forall|i: int| 0 <= i < safe(s).len() ==> is_safe_char(#[trigger] safe(s)[i]),
    decreases s.len(),
{
    reveal(Seq::filter);
    if s.len() > 0 {
        law_safe_text_has_no_terminal_controls(s.drop_last());
        lemma_safe_push(s.drop_last(), s.last());
        assert(s.drop_last().push(s.last()) =~= s);
    }
}

/// A text of safe characters is left as it is; so making a text safe twice is making it safe
/// once.
pub proof fn law_safe_text_is_kept(s: Seq<char>)
    ensures
        (forall|i: int| 0 <= i < s.len() ==> is_safe_char(#[trigger] s[i])) ==> safe(s) == s,
        safe(safe(s)) == safe(s),
    decreases s.len(),
{
    lemma_safe_identity(s);
    law_safe_text_has_no_terminal_controls(s);
    lemma_safe_identity(safe(s));
}

proof fn lemma_safe_identity(s: Seq<char>)
    ensures
        (forall|i: int| 0 <= i < s.len() ==> is_safe_char(#[trigger] s[i])) ==> safe(s) == s,
    decreases s.len(),
{
    reveal(Seq::filter);
    if s.len() > 0 {
        lemma_safe_identity(s.drop_last());
        lemma_safe_push(s.drop_last(), s.last());
        assert(s.drop_last().push(s.last()) =~= s);
        if forall|i: int| 0 <= i < s.len() ==> is_safe_char(#[trigger] s[i]) {
            assert forall|i: int| 0 <= i < s.drop_last().len() implies is_safe_char(
                #[trigger] s.drop_last()[i],
            ) by {
                assert(s.drop_last()[i] == s[i]);
            }
            assert(is_safe_char(s[s.len() - 1]));
        }
    }
}

/// On a raw terminal untrusted text moves the cursor only by tabs and by whole line ends: each
/// of its characters is safe, or a carriage return with a newline right behind it.
pub proof fn law_terminal_text_only_ends_lines(s: Seq<char>)
    ensures
        forall|i: int|
            0 <= i < terminal(s).len() ==> is_safe_char(#[trigger] terminal(s)[i]) || (terminal(
                s,
            )[i] == '\r' && i + 1 < terminal(s).len() && terminal(s)[i + 1] == '\n'),
{
    law_safe_text_has_no_terminal_controls(s);
    lemma_raw_lines(safe(s));
}

proof fn lemma_raw_lines(s: Seq<char>)
    requires
        forall|i: int| 0 <= i < s.len() ==> is_safe_char(#[trigger] s[i]),
    ensures
        forall|i: int|
            0 <= i < raw_lines(s).len() ==> is_safe_char(#[trigger] raw_lines(s)[i]) || (raw_lines(
                s,
            )[i] == '\r' && i + 1 < raw_lines(s).len() && raw_lines(s)[i + 1] == '\n'),
    decreases s.len(),
{
    if s.len() > 0 {
        let front = s.drop_last();
        assert forall|i: int| 0 <= i < front.len() implies is_safe_char(#[trigger] front[i]) by {
            assert(front[i] == s[i]);
        }
        lemma_raw_lines(front);
        assert(is_safe_char(s[s.len() - 1]));
        let shown = raw_lines(front);
        assert forall|i: int| 0 <= i < raw_lines(s).len() implies is_safe_char(
            #[trigger] raw_lines(s)[i],
        ) || (raw_lines(s)[i] == '\r' && i + 1 < raw_lines(s).len() && raw_lines(s)[i + 1]
            == '\n') by {
            if i < shown.len() {
                assert(raw_lines(s)[i] == shown[i]);
                if i + 1 < shown.len() {
                    assert(raw_lines(s)[i + 1] == shown[i + 1]);
                }
            }
        }
    }
}

/// Byte strings in lexicographic order.
pub open spec fn bytes_less(a: Seq<u8>, b: Seq<u8>) -> bool
    decreases a.len(),
{
    if b.len() == 0 {
        false
    } else if a.len() == 0 {
        true
    } else if a[0] != b[0] {
        a[0] < b[0]
    } else {
        bytes_less(a.drop_first(), b.drop_first())
    }
}

/// Texts in the order of their bytes.
pub open spec fn text_less(a: Seq<char>, b: Seq<char>) -> bool {
    bytes_less(encode_utf8(a), encode_utf8(b))
}

proof fn lemma_bytes_less_irreflexive(a: Seq<u8>)
    ensures
        !bytes_less(a, a),
    decreases a.len(),
{
    if a.len() > 0 {
        lemma_bytes_less_irreflexive(a.drop_first());
    }
}

proof fn lemma_bytes_less_transitive(a: Seq<u8>, b: Seq<u8>, c: Seq<u8>)
    requires
        bytes_less(a, b),
        bytes_less(b, c),
    ensures
        bytes_less(a, c),
    decreases a.len(),
{
    if a.len() > 0 && a[0] == b[0] && b[0] == c[0] {
        lemma_bytes_less_transitive(a.drop_first(), b.drop_first(), c.drop_first());
    }
}

proof fn lemma_bytes_less_total(a: Seq<u8>, b: Seq<u8>)
    ensures
        bytes_less(a, b) || a == b || bytes_less(b, a),
    decreases a.len(),
{
    if a.len() == 0 || b.len() == 0 {
        if a.len() == b.len() {
            assert(a =~= b);
        }
    } else if a[0] == b[0] {
        lemma_bytes_less_total(a.drop_first(), b.drop_first());
        if a.drop_first() == b.drop_first() {
            assert(a =~= seq![a[0]] + a.drop_first());
            assert(b =~= seq![b[0]] + b.drop_first());
        }
    }
}

/// The order of texts is strict and total.
pub proof fn lemma_text_order(a: Seq<char>, b: Seq<char>, c: Seq<char>)
    ensures
        !text_less(a, a),
        text_less(a, b) && text_less(b, c) ==> text_less(a, c),
        text_less(a, b) || a == b || text_less(b, a),
        text_less(a, b) ==> a != b && !text_less(b, a),
{
    lemma_bytes_less_irreflexive(encode_utf8(a));
    if text_less(a, b) && text_less(b, c) {
        lemma_bytes_less_transitive(encode_utf8(a), encode_utf8(b), encode_utf8(c));
    }
    if text_less(a, b) && text_less(b, a) {
        lemma_bytes_less_transitive(encode_utf8(a), encode_utf8(b), encode_utf8(a));
    }
    lemma_bytes_less_total(encode_utf8(a), encode_utf8(b));
    if encode_utf8(a) == encode_utf8(b) {
        lemma_utf8_injective(a, b);
    }
}

/// Whether a text comes before another.
pub fn text_before(a: &str, b: &str) -> (before: bool)
    ensures
        before == text_less(a@, b@),
{
    let left = a.as_bytes();
    let right = b.as_bytes();
    let mut i: usize = 0;
    assert(left@.skip(0) =~= left@);
    assert(right@.skip(0) =~= right@);
    while i < left.len() && i < right.len()
        invariant
            i <= left@.len(),
            i <= right@.len(),
            left@ == encode_utf8(a@),
            right@ == encode_utf8(b@),
            bytes_less(left@, right@) == bytes_less(left@.skip(i as int), right@.skip(i as int)),
        decreases left@.len() - i,
    {
        assert(left@.skip(i as int).drop_first() =~= left@.skip(i + 1));
        assert(right@.skip(i as int).drop_first() =~= right@.skip(i + 1));
        if left[i] != right[i] {
            return left[i] < right[i];
        }
        i = i + 1;
    }
    i < right.len()
}

/// All characters of a text are white space.
pub open spec fn is_blank(s: Seq<char>) -> bool {
    forall|i: int| 0 <= i < s.len() ==> is_whitespace_char(#[trigger] s[i])
}

/// A text that neither starts nor ends with white space.
pub open spec fn is_bare(s: Seq<char>) -> bool {
    s.len() > 0 ==> !is_whitespace_char(s[0]) && !is_whitespace_char(s[s.len() - 1])
}

proof fn lemma_trimmed_start(a: Seq<char>, s: Seq<char>)
    requires
        is_blank(a),
        s.len() > 0 ==> !is_whitespace_char(s[0]),
    ensures
        trimmed_start(a + s) == s,
    decreases a.len(),
{
    if a.len() > 0 {
        let rest = a.drop_first();
        assert forall|i: int| 0 <= i < rest.len() implies is_whitespace_char(#[trigger] rest[i]) by {
            assert(rest[i] == a[i + 1]);
        }
        lemma_trimmed_start(rest, s);
        assert((a + s)[0] == a[0]);
        assert((a + s).drop_first() =~= rest + s);
    } else {
        assert(a + s =~= s);
    }
}

proof fn lemma_trimmed_end(s: Seq<char>, b: Seq<char>)
    requires
        is_blank(b),
        s.len() > 0 ==> !is_whitespace_char(s[s.len() - 1]),
    ensures
        trimmed_end(s + b) == s,
    decreases b.len(),
{
    if b.len() > 0 {
        let rest = b.drop_last();
        assert forall|i: int| 0 <= i < rest.len() implies is_whitespace_char(#[trigger] rest[i]) by {
            assert(rest[i] == b[i]);
        }
        lemma_trimmed_end(s, rest);
        assert((s + b)[(s + b).len() - 1] == b[b.len() - 1]);
        assert((s + b).drop_last() =~= s + rest);
    } else {
        assert(s + b =~= s);
    }
}

/// Trimming takes the white space around a text away and nothing else: whatever stands between
/// white space stays as it is.
pub proof fn law_trimming_takes_the_ends_only(a: Seq<char>, s: Seq<char>, b: Seq<char>)
    requires
        is_blank(a),
        is_bare(s),
        is_blank(b),
    ensures
        trimmed(a + s + b) == s,
        s.len() > 0 ==> trimmed_start(a + s + b) == s + b,
{
    if s.len() > 0 {
        assert((s + b)[0] == s[0]);
        lemma_trimmed_start(a, s + b);
        assert(a + (s + b) =~= a + s + b);
        lemma_trimmed_end(s, b);
    } else {
        let ab = a + s + b;
        assert(ab =~= a + b);
        assert forall|i: int| 0 <= i < ab.len() implies is_whitespace_char(#[trigger] ab[i]) by {
            if i < a.len() {
                assert(ab[i] == a[i]);
            } else {
                assert(ab[i] == b[i - a.len()]);
            }
        }
        lemma_trimmed_start(ab, Seq::empty());
        assert(ab + Seq::<char>::empty() =~= ab);
        assert(trimmed_end(Seq::<char>::empty()) =~= Seq::<char>::empty());
        assert(s =~= Seq::<char>::empty());
    }
}

/// A text is made safe character by character: of two texts one after the other each is made safe
/// on its own, and a single character is kept exactly if it is a newline, a tab or no control
/// character.
pub proof fn law_safe_text_is_made_by_character(a: Seq<char>, b: Seq<char>, c: char)
    ensures
        safe(a + b) == safe(a) + safe(b),
        safe(seq![c]) == if c == '\n' || c == '\t' || !(c as u32 <= 0x1f || 0x7f <= c as u32
            <= 0x9f) {
            seq![c]
        } else {
            Seq::<char>::empty()
        },
    decreases b.len(),
{
    reveal(Seq::filter);
    lemma_safe_push(Seq::empty(), c);
    assert(Seq::<char>::empty().push(c) =~= seq![c]);
    if b.len() > 0 {
        let front = b.drop_last();
        law_safe_text_is_made_by_character(a, front, c);
        lemma_safe_push(a + front, b.last());
        lemma_safe_push(front, b.last());
        assert((a + front).push(b.last()) =~= a + b);
        assert(front.push(b.last()) =~= b);
        assert(safe(a + b) =~= safe(a) + safe(b));
    } else {
        assert(a + b =~= a);
        assert(safe(a) + safe(b) =~= safe(a));
    }
}

proof fn lemma_raw_lines_add(a: Seq<char>, b: Seq<char>)
    ensures
        raw_lines(a + b) == raw_lines(a) + raw_lines(b),
    decreases b.len(),
{
    if b.len() > 0 {
        lemma_raw_lines_add(a, b.drop_last());
        assert((a + b).drop_last() =~= a + b.drop_last());
        assert((a + b).last() == b.last());
        assert(raw_lines(a + b) =~= raw_lines(a) + raw_lines(b));
    } else {
        assert(a + b =~= a);
        assert(raw_lines(a) + raw_lines(b) =~= raw_lines(a));
    }
}

/// A text is prepared for the terminal character by character: a newline becomes a carriage return
/// and a newline, a tab or a character that is no control character stays, and nothing else comes
/// through.
pub proof fn law_terminal_text_is_made_by_character(a: Seq<char>, b: Seq<char>, c: char)
    ensures
        terminal(a + b) == terminal(a) + terminal(b),
        terminal(seq![c]) == if c == '\n' {
            seq!['\r', '\n']
        } else if c == '\t' || !(c as u32 <= 0x1f || 0x7f <= c as u32 <= 0x9f) {
            seq![c]
        } else {
            Seq::<char>::empty()
        },
{
    law_safe_text_is_made_by_character(a, b, c);
    lemma_raw_lines_add(safe(a), safe(b));
    let one = seq![c];
    assert(one.drop_last() =~= Seq::<char>::empty());
    assert(raw_lines(Seq::<char>::empty()) =~= Seq::<char>::empty());
    assert(raw_lines(one) =~= if c == '\n' {
        seq!['\r', '\n']
    } else {
        one
    });
}

/// The number that digits stand for.
pub open spec fn number_in(digits: Seq<char>) -> int
    decreases digits.len(),
{
    if digits.len() == 0 {
        0
    } else {
        10 * number_in(digits.drop_last()) + (digits.last() as u32 - '0' as u32)
    }
}

/// A number is written by digits that stand for it, the first of which is zero for zero only.
pub proof fn law_numbers_are_written_by_their_digits(n: nat)
    ensures
        number_in(decimal(n)) == n,
        decimal(n).len() > 0,
        forall|i: int| 0 <= i < decimal(n).len() ==> '0' <= #[trigger] decimal(n)[i] <= '9',
        n > 0 ==> decimal(n)[0] != '0',
    decreases n,
{
    if n < 10 {
        assert(decimal(n).drop_last() =~= Seq::<char>::empty());
        assert(number_in(Seq::<char>::empty()) == 0);
    } else {
        law_numbers_are_written_by_their_digits(n / 10);
        assert(decimal(n).drop_last() =~= decimal(n / 10));
        assert(decimal(n).last() as u32 - '0' as u32 == n % 10);
        assert forall|i: int| 0 <= i < decimal(n).len() implies '0' <= #[trigger] decimal(n)[i]
            <= '9' by {
            if i < decimal(n).len() - 1 {
                assert(decimal(n)[i] == decimal(n / 10)[i]);
            }
        }
        assert(decimal(n)[0] == decimal(n / 10)[0]);
    }
}

/// The value of a hexadecimal digit in lower case.
pub open spec fn hex_value(c: char) -> int {
    if '0' <= c <= '9' {
        c as u32 - '0' as u32
    } else if 'a' <= c <= 'f' {
        c as u32 - 'a' as u32 + 10
    } else {
        -1
    }
}

/// Each byte is written by two digits in lower case, the higher one first.
pub proof fn law_bytes_are_written_by_two_digits(bytes: Seq<u8>, i: int)
    requires
        0 <= i < bytes.len(),
    ensures
        lower_hex(bytes).len() == 2 * bytes.len(),
        0 <= hex_value(lower_hex(bytes)[2 * i]) < 16,
        0 <= hex_value(lower_hex(bytes)[2 * i + 1]) < 16,
        16 * hex_value(lower_hex(bytes)[2 * i]) + hex_value(lower_hex(bytes)[2 * i + 1])
            == bytes[i],
    decreases bytes.len(),
{
    let front = bytes.drop_last();
    lemma_lower_hex_len(front);
    if i < front.len() {
        law_bytes_are_written_by_two_digits(front, i);
        assert(lower_hex(bytes)[2 * i] == lower_hex(front)[2 * i]);
        assert(lower_hex(bytes)[2 * i + 1] == lower_hex(front)[2 * i + 1]);
    } else {
        assert(bytes.last() == bytes[i]);
    }
}

proof fn lemma_lower_hex_len(bytes: Seq<u8>)
    ensures
        lower_hex(bytes).len() == 2 * bytes.len(),
    decreases bytes.len(),
{
    if bytes.len() > 0 {
        lemma_lower_hex_len(bytes.drop_last());
    }
}

/// Texts are compared by their bytes.
pub proof fn law_texts_are_compared_by_their_bytes(s: Seq<char>, t: Seq<char>)
    ensures
        text_less(s, t) <==> bytes_less(encode_utf8(s), encode_utf8(t)),
{
}

/// Bytes are in lexicographic order: what two have in common does not matter, then the smaller
/// byte comes first, and a text comes before each longer one that it begins.
pub proof fn law_texts_are_in_the_order_of_their_bytes(
    p: Seq<u8>,
    x: u8,
    a: Seq<u8>,
    y: u8,
    b: Seq<u8>,
)
    requires
        x != y,
    ensures
        bytes_less(p + seq![x] + a, p + seq![y] + b) <==> x < y,
        bytes_less(p, p + seq![y] + b),
        !bytes_less(p + seq![y] + b, p),
        !bytes_less(p, p),
    decreases p.len(),
{
    let l = p + seq![x] + a;
    let r = p + seq![y] + b;
    if p.len() > 0 {
        law_texts_are_in_the_order_of_their_bytes(p.drop_first(), x, a, y, b);
        assert(l.drop_first() =~= p.drop_first() + seq![x] + a);
        assert(r.drop_first() =~= p.drop_first() + seq![y] + b);
        assert(l[0] == p[0] && r[0] == p[0]);
    } else {
        assert(l[0] == x && r[0] == y);
    }
}

/// White space is what Unicode has as such: the tab, the four ends of lines and pages that follow it,
/// the space, the next line and the spaces without a break, and the spaces and separators of
/// typography. A control character is one below the space, or from delete up to the space without a
/// break.
pub proof fn law_white_space_is_that_of_unicode(c: char)
    ensures
        is_whitespace_char(c) <==> {
            ||| c == '\t' || c == '\n' || c == '\x0b' || c == '\x0c' || c == '\r' || c == ' '
            ||| c == '\u{85}' || c == '\u{a0}' || c == '\u{1680}'
            ||| '\u{2000}' <= c <= '\u{200a}'
            ||| c == '\u{2028}' || c == '\u{2029}' || c == '\u{202f}' || c == '\u{205f}'
            ||| c == '\u{3000}'
        },
        is_control_char(c) <==> c < ' ' || '\x7f' <= c < '\u{a0}',
{
}

} // verus!
