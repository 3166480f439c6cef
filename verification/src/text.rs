//! Text: what constructors accept, and the few string operations the
//! library's rules are written with.

use vstd::prelude::*;

verus! {

/// Owned or borrowed text: what constructors accept where they keep a
/// `String`.
pub trait Text: Sized {
    /// The characters of the text.
    spec fn text(&self) -> Seq<char>;

    /// The text as an owned string.
    fn into_text(self) -> (owned: String)
        ensures
            owned@ == self.text(),
    ;
}

impl Text for String {
    open spec fn text(&self) -> Seq<char> {
        self@
    }

    fn into_text(self) -> (owned: String) {
        self
    }
}

impl<'a> Text for &'a str {
    open spec fn text(&self) -> Seq<char> {
        self@
    }

    fn into_text(self) -> (owned: String) {
        self.to_owned()
    }
}

/// `str::eq`: two strings are equal exactly when they hold the same
/// characters.
#[verifier::external_body]
pub(crate) fn same_text(a: &str, b: &str) -> (same: bool)
    ensures
        same == (a@ == b@),
{
    a == b
}

/// The lexicographic order on characters, by code point; a proper prefix
/// comes first.
pub open spec fn precedes(a: Seq<char>, b: Seq<char>) -> bool
    decreases a.len(),
{
    if b.len() == 0 {
        false
    } else if a.len() == 0 {
        true
    } else if a[0] == b[0] {
        precedes(a.drop_first(), b.drop_first())
    } else {
        (a[0] as int) < (b[0] as int)
    }
}

/// `str::lt`: strings are ordered lexicographically by their code points.
#[verifier::external_body]
pub(crate) fn text_precedes(a: &str, b: &str) -> (before: bool)
    ensures
        before == precedes(a@, b@),
{
    a < b
}

/// Nothing precedes itself.
pub proof fn precedes_irreflexive(a: Seq<char>)
    ensures
        !precedes(a, a),
    decreases a.len(),
{
    if a.len() > 0 {
        precedes_irreflexive(a.drop_first());
    }
}

/// The order on text is transitive.
pub proof fn precedes_transitive(a: Seq<char>, b: Seq<char>, c: Seq<char>)
    requires
        precedes(a, b),
        precedes(b, c),
    ensures
        precedes(a, c),
    decreases a.len(),
{
    if a.len() > 0 && a[0] == b[0] && b[0] == c[0] {
        precedes_transitive(a.drop_first(), b.drop_first(), c.drop_first());
    }
}

/// Of two different texts one precedes the other.
pub proof fn precedes_total(a: Seq<char>, b: Seq<char>)
    requires
        a != b,
    ensures
        precedes(a, b) || precedes(b, a),
    decreases a.len(),
{
    if a.len() == 0 {
        assert(b.len() > 0) by {
            if b.len() == 0 {
                assert(a =~= b);
            }
        }
    } else if b.len() > 0 && a[0] == b[0] {
        let a1 = a.drop_first();
        let b1 = b.drop_first();
        if a1 == b1 {
            assert(a =~= seq![a[0]] + a1);
            assert(b =~= seq![b[0]] + b1);
        } else {
            precedes_total(a1, b1);
        }
    }
}

/// What `str::to_lowercase` makes of a text.
pub uninterp spec fn lowercase(text: Seq<char>) -> Seq<char>;

/// `str::to_lowercase`: the result depends on the characters alone, and the
/// empty text stays empty.
#[verifier::external_body]
pub(crate) fn to_lowercase(text: &str) -> (lower: String)
    ensures
        lower@ == lowercase(text@),
        text@.len() == 0 ==> lower@.len() == 0,
{
    text.to_lowercase()
}

/// `needle` stands somewhere in `text`, in one piece.
pub open spec fn contains_text(text: Seq<char>, needle: Seq<char>) -> bool {
    exists|at: int|
        0 <= at <= text.len() - needle.len() && #[trigger] text.subrange(at, at + needle.len())
            == needle
}

/// `str::contains` with a string pattern: whether the pattern is a
/// sub-slice of the text.
#[verifier::external_body]
pub(crate) fn has_text(text: &str, needle: &str) -> (found: bool)
    ensures
        found == contains_text(text@, needle@),
{
    text.contains(needle)
}

/// `String::push`: appends one character.
pub assume_specification[ String::push ](text: &mut String, c: char)
    ensures
        final(text)@ == old(text)@.push(c),
;

/// The concatenation of two texts.
pub(crate) fn concat(a: &str, b: &str) -> (joined: String)
    ensures
        joined@ == a@ + b@,
{
    let mut joined = a.to_owned();
    joined.append(b);
    joined
}

/// The character of a digit below sixteen.
pub open spec fn digit_char(digit: nat) -> char {
    if digit == 0 {
        '0'
    } else if digit == 1 {
        '1'
    } else if digit == 2 {
        '2'
    } else if digit == 3 {
        '3'
    } else if digit == 4 {
        '4'
    } else if digit == 5 {
        '5'
    } else if digit == 6 {
        '6'
    } else if digit == 7 {
        '7'
    } else if digit == 8 {
        '8'
    } else if digit == 9 {
        '9'
    } else if digit == 10 {
        'a'
    } else if digit == 11 {
        'b'
    } else if digit == 12 {
        'c'
    } else if digit == 13 {
        'd'
    } else if digit == 14 {
        'e'
    } else {
        'f'
    }
}

fn digit(d: u8) -> (c: char)
    requires
        d < 16,
    ensures
        c == digit_char(d as nat),
{
    match d {
        0 => '0',
        1 => '1',
        2 => '2',
        3 => '3',
        4 => '4',
        5 => '5',
        6 => '6',
        7 => '7',
        8 => '8',
        9 => '9',
        10 => 'a',
        11 => 'b',
        12 => 'c',
        13 => 'd',
        14 => 'e',
        _ => 'f',
    }
}

/// A number in decimal digits.
pub open spec fn decimal(n: nat) -> Seq<char>
    decreases n,
{
    if n < 10 {
        seq![digit_char(n)]
    } else {
        decimal(n / 10).push(digit_char(n % 10))
    }
}

/// A number in lower-case hexadecimal digits.
pub open spec fn hex(n: nat) -> Seq<char>
    decreases n,
{
    if n < 16 {
        seq![digit_char(n)]
    } else {
        hex(n / 16).push(digit_char(n % 16))
    }
}

/// Writes a number in decimal digits.
pub(crate) fn decimal_text(n: usize) -> (text: String)
    ensures
        text@ == decimal(n as nat),
    decreases n,
{
    if n < 10 {
        let mut text = String::new();
        text.push(digit(n as u8));
        assert(text@ =~= seq![digit_char(n as nat)]);
        text
    } else {
        let mut text = decimal_text(n / 10);
        text.push(digit((n % 10) as u8));
        text
    }
}

/// Writes a number in lower-case hexadecimal digits.
pub(crate) fn hex_text(n: u128) -> (text: String)
    ensures
        text@ == hex(n as nat),
    decreases n,
{
    if n < 16 {
        let mut text = String::new();
        text.push(digit(n as u8));
        assert(text@ =~= seq![digit_char(n as nat)]);
        text
    } else {
        let mut text = hex_text(n / 16);
        text.push(digit((n % 16) as u8));
        text
    }
}

/// Hexadecimal text is never empty and has no dash in it.
pub proof fn hex_has_no_dash(n: nat)
    ensures
        hex(n).len() > 0,
        forall|i: int| 0 <= i < hex(n).len() ==> #[trigger] hex(n)[i] != '-',
    decreases n,
{
    if n >= 16 {
        hex_has_no_dash(n / 16);
        assert forall|i: int| 0 <= i < hex(n).len() implies #[trigger] hex(n)[i] != '-' by {
            if i < hex(n / 16).len() {
                assert(hex(n)[i] == hex(n / 16)[i]);
            }
        }
    }
}

proof fn digit_char_is_injective(a: nat, b: nat)
    requires
        a < 16,
        b < 16,
        digit_char(a) == digit_char(b),
    ensures
        a == b,
{
}

/// Different numbers have different hexadecimal texts.
pub proof fn hex_is_injective(a: nat, b: nat)
    requires
        hex(a) == hex(b),
    ensures
        a == b,
    decreases a,
{
    if a >= 16 {
        hex_has_no_dash(a / 16);
    }
    if b >= 16 {
        hex_has_no_dash(b / 16);
    }
    reveal_with_fuel(hex, 2);
    if a < 16 && b < 16 {
        assert(seq![digit_char(a)][0] == seq![digit_char(b)][0]);
        digit_char_is_injective(a, b);
    } else if a >= 16 && b >= 16 {
        assert(hex(a).drop_last() =~= hex(a / 16));
        assert(hex(b).drop_last() =~= hex(b / 16));
        assert(hex(a).last() == digit_char(a % 16));
        assert(hex(b).last() == digit_char(b % 16));
        digit_char_is_injective(a % 16, b % 16);
        hex_is_injective(a / 16, b / 16);
    } else {
        let short = if a < 16 {
            a
        } else {
            b
        };
        assert(hex(short).len() == 1);
        assert(hex(a).len() == hex(b).len());
    }
}

/// Splits at the first dash are unique: two texts joined by a dash agree in
/// both parts when the first parts have no dash.
pub proof fn dash_split_is_unique(a: Seq<char>, b: Seq<char>, c: Seq<char>, d: Seq<char>)
    requires
        a + seq!['-'] + b == c + seq!['-'] + d,
        forall|i: int| 0 <= i < a.len() ==> #[trigger] a[i] != '-',
        forall|i: int| 0 <= i < c.len() ==> #[trigger] c[i] != '-',
    ensures
        a == c,
        b == d,
{
    let left = a + seq!['-'] + b;
    let right = c + seq!['-'] + d;
    assert(left[a.len() as int] == '-');
    assert(right[c.len() as int] == '-');
    if a.len() < c.len() {
        assert(right[a.len() as int] == c[a.len() as int]);
    }
    if c.len() < a.len() {
        assert(left[c.len() as int] == a[c.len() as int]);
    }
    assert(left.subrange(0, a.len() as int) =~= a);
    assert(right.subrange(0, c.len() as int) =~= c);
    assert(left.subrange(a.len() as int + 1, left.len() as int) =~= b);
    assert(right.subrange(c.len() as int + 1, right.len() as int) =~= d);
}

/// The characters with the Unicode property `White_Space`: the control
/// characters from the tab to the carriage return, the next line, and the
/// spaces and separators.
pub open spec fn whitespace(c: char) -> bool {
    let code = c as u32;
    ||| 0x9 <= code <= 0xD
    ||| code == 0x20
    ||| code == 0x85
    ||| code == 0xA0
    ||| code == 0x1680
    ||| 0x2000 <= code <= 0x200A
    ||| code == 0x2028
    ||| code == 0x2029
    ||| code == 0x202F
    ||| code == 0x205F
    ||| code == 0x3000
}

/// `char::is_whitespace`: whether the character has the Unicode property
/// `White_Space`.
pub assume_specification[ char::is_whitespace ](c: char) -> (is: bool)
    ensures
        is == whitespace(c),
;

/// How many characters come before the first blank one.
pub open spec fn word_end(blank: Seq<bool>) -> nat
    decreases blank.len(),
{
    if blank.len() == 0 || blank[0] {
        0
    } else {
        1 + word_end(blank.drop_first())
    }
}

/// A word ends within its text.
pub proof fn word_end_is_within(blank: Seq<bool>)
    ensures
        word_end(blank) <= blank.len(),
    decreases blank.len(),
{
    if blank.len() > 0 && !blank[0] {
        word_end_is_within(blank.drop_first());
    }
}

/// The first `count` words of a text: its longest runs without a blank
/// character.
pub open spec fn leading_words(text: Seq<char>, blank: Seq<bool>, count: nat) -> Seq<Seq<char>>
    decreases blank.len(),
{
    if count == 0 || blank.len() == 0 {
        Seq::empty()
    } else if blank[0] {
        leading_words(text.drop_first(), blank.drop_first(), count)
    } else {
        proof {
            word_end_is_within(blank);
        }
        seq![text.take(word_end(blank) as int)] + leading_words(
            text.skip(word_end(blank) as int),
            blank.skip(word_end(blank) as int),
            (count - 1) as nat,
        )
    }
}

/// Which characters of a text are whitespace.
pub open spec fn blanks_of(text: Seq<char>) -> Seq<bool> {
    Seq::new(text.len(), |i: int| whitespace(text[i]))
}

/// Words with a space between them.
pub open spec fn spaced(words: Seq<Seq<char>>) -> Seq<char>
    decreases words.len(),
{
    if words.len() == 0 {
        Seq::empty()
    } else if words.len() == 1 {
        words[0]
    } else {
        spaced(words.drop_last()) + seq![' '] + words.last()
    }
}

/// What follows a word that is being read: its rest, then further words.
spec fn words_behind(word: Seq<char>, rest: Seq<char>, blank: Seq<bool>, count: nat) -> Seq<
    Seq<char>,
> {
    seq![word + rest.take(word_end(blank) as int)] + leading_words(
        rest.skip(word_end(blank) as int),
        blank.skip(word_end(blank) as int),
        count,
    )
}

/// The first `count` words of a text, with a space between them; `blank`
/// tells which characters stand between words.
pub fn join_words(text: &str, blank: &Vec<bool>, count: usize) -> (words: String)
    requires
        blank@.len() == text@.len(),
    ensures
        words@ == spaced(leading_words(text@, blank@, count as nat)),
{
    let mut words = String::new();
    let mut begun: usize = 0;
    let mut in_word: bool = false;
    let mut place: usize = 0;
    let ghost mut done: Seq<Seq<char>> = Seq::empty();
    let ghost mut word: Seq<char> = Seq::empty();
    assert(text@.skip(0) =~= text@);
    assert(blank@.skip(0) =~= blank@);
    assert(done + leading_words(text@, blank@, count as nat) =~= leading_words(
        text@,
        blank@,
        count as nat,
    ));
    for c in it: text.chars()
        invariant
            it.seq() == text@,
            blank@.len() == text@.len(),
            place == it.index(),
            begun <= count,
            begun == done.len() + (if in_word {
                1int
            } else {
                0
            }),
            words@ == spaced(
                if in_word {
                    done.push(word)
                } else {
                    done
                },
            ),
            leading_words(text@, blank@, count as nat) == done + (if in_word {
                words_behind(
                    word,
                    text@.skip(it.index()),
                    blank@.skip(it.index()),
                    (count - begun) as nat,
                )
            } else {
                leading_words(
                    text@.skip(it.index()),
                    blank@.skip(it.index()),
                    (count - begun) as nat,
                )
            }),
    {
        let ghost rest = text@.skip(it.index());
        let ghost after = text@.skip(it.index() + 1);
        let ghost here = blank@.skip(it.index());
        let ghost there = blank@.skip(it.index() + 1);
        assert(rest[0] == c);
        assert(here[0] == blank@[it.index()]);
        assert(after =~= rest.drop_first());
        assert(there =~= here.drop_first());
        proof {
            word_end_is_within(there);
        }
        if blank[place] {
            proof {
                if in_word {
                    assert(word + rest.take(0) =~= word);
                    assert(rest.skip(0) =~= rest);
                    assert(here.skip(0) =~= here);
                    if begun < count {
                        assert(leading_words(rest, here, (count - begun) as nat) == leading_words(
                            after,
                            there,
                            (count - begun) as nat,
                        ));
                    }
                    assert(done + words_behind(word, rest, here, (count - begun) as nat)
                        =~= done.push(word) + leading_words(after, there, (count - begun) as nat));
                    done = done.push(word);
                    word = Seq::empty();
                }
            }
            in_word = false;
        } else if in_word {
            words.push(c);
            proof {
                assert(done.push(word).drop_last() =~= done);
                assert(done.push(word.push(c)).drop_last() =~= done);
                assert(word + rest.take(word_end(here) as int) =~= word.push(c) + after.take(
                    word_end(there) as int,
                ));
                assert(rest.skip(word_end(here) as int) =~= after.skip(word_end(there) as int));
                assert(here.skip(word_end(here) as int) =~= there.skip(word_end(there) as int));
                assert(spaced(done.push(word.push(c))) =~= spaced(done.push(word)).push(c));
                word = word.push(c);
            }
        } else if begun < count {
            if begun > 0 {
                words.push(' ');
            }
            words.push(c);
            proof {
                assert(done.push(seq![c]).drop_last() =~= done);
                assert(spaced(done.push(seq![c])) =~= words@);
                assert(rest.take(word_end(here) as int) =~= seq![c] + after.take(
                    word_end(there) as int,
                ));
                assert(rest.skip(word_end(here) as int) =~= after.skip(word_end(there) as int));
                assert(here.skip(word_end(here) as int) =~= there.skip(word_end(there) as int));
                word = seq![c];
            }
            begun += 1;
            in_word = true;
        }
        assert(place < blank.len());
        place += 1;
    }
    proof {
        let none = text@.skip(text@.len() as int);
        let nowhere = blank@.skip(text@.len() as int);
        assert(none.len() == 0);
        assert(nowhere.len() == 0);
        assert(word + none.take(0) =~= word);
        if in_word {
            assert(done + words_behind(word, none, nowhere, (count - begun) as nat) =~= done.push(
                word,
            ));
        } else {
            assert(done + leading_words(none, nowhere, (count - begun) as nat) =~= done);
        }
    }
    words
}

/// The first `count` words of a text, with a space between them.
pub fn first_words(text: &str, count: usize) -> (words: String)
    ensures
        words@ == spaced(leading_words(text@, blanks_of(text@), count as nat)),
{
    let mut blank: Vec<bool> = Vec::new();
    for c in it: text.chars()
        invariant
            it.seq() == text@,
            blank@ == blanks_of(text@).take(it.index()),
    {
        assert(c == text@[it.index()]);
        blank.push(c.is_whitespace());
        assert(blanks_of(text@).take(it.index() + 1) =~= blanks_of(text@).take(it.index()).push(
            whitespace(c),
        ));
    }
    assert(blank@ =~= blanks_of(text@));
    join_words(text, &blank, count)
}

/// What a digit counts for.
pub open spec fn digit_value(c: char) -> int {
    if '0' as int <= c as int <= '9' as int {
        c as int - '0' as int
    } else {
        c as int - 'a' as int + 10
    }
}

/// The number that digits in a base stand for, the last one counting least.
pub open spec fn number_of(digits: Seq<char>, base: int) -> int
    decreases digits.len(),
{
    if digits.len() == 0 {
        0
    } else {
        base * number_of(digits.drop_last(), base) + digit_value(digits.last())
    }
}

/// Hexadecimal text reads back as the number it was written for, and starts
/// with a zero for zero alone.
pub proof fn hex_reads_back(n: nat)
    ensures
        number_of(hex(n), 16) == n,
        hex(n).len() > 0,
        hex(n)[0] == '0' ==> n == 0 && hex(n).len() == 1,
    decreases n,
{
    if n < 16 {
        assert(hex(n).drop_last() =~= Seq::<char>::empty());
        reveal_with_fuel(number_of, 2);
    } else {
        hex_reads_back(n / 16);
        assert(hex(n).drop_last() =~= hex(n / 16));
        assert(hex(n)[0] == hex(n / 16)[0]);
    }
}

/// Decimal text reads back as the number it was written for, and starts with
/// a zero for zero alone.
pub proof fn decimal_reads_back(n: nat)
    ensures
        number_of(decimal(n), 10) == n,
        decimal(n).len() > 0,
        decimal(n)[0] == '0' ==> n == 0 && decimal(n).len() == 1,
    decreases n,
{
    if n < 10 {
        assert(decimal(n).drop_last() =~= Seq::<char>::empty());
        reveal_with_fuel(number_of, 2);
    } else {
        decimal_reads_back(n / 10);
        assert(decimal(n).drop_last() =~= decimal(n / 10));
        assert(decimal(n)[0] == decimal(n / 10)[0]);
    }
}

/// A word goes on until the first blank character.
proof fn word_ends_at_a_blank(blank: Seq<bool>, more: Seq<bool>)
    ensures
        word_end(blank + seq![true] + more) == word_end(blank),
    decreases blank.len(),
{
    let all = blank + seq![true] + more;
    if blank.len() > 0 && !blank[0] {
        word_ends_at_a_blank(blank.drop_first(), more);
        assert(all.drop_first() =~= blank.drop_first() + seq![true] + more);
    }
}

/// A text without blank characters goes on to its end.
proof fn word_without_blanks(blank: Seq<bool>)
    requires
        forall|i: int| 0 <= i < blank.len() ==> !#[trigger] blank[i],
    ensures
        word_end(blank) == blank.len(),
    decreases blank.len(),
{
    if blank.len() > 0 {
        assert forall|i: int| 0 <= i < blank.drop_first().len() implies !#[trigger] blank.drop_first()[i] by {
            assert(blank.drop_first()[i] == blank[i + 1]);
        }
        word_without_blanks(blank.drop_first());
    }
}

/// A blank character parts words: the words of a text are those before it,
/// then, as far as the count goes, those after it.
pub proof fn blanks_part_words(
    text: Seq<char>,
    blank: Seq<bool>,
    between: char,
    more: Seq<char>,
    more_blank: Seq<bool>,
    count: nat,
)
    requires
        blank.len() == text.len(),
        more_blank.len() == more.len(),
    ensures
        leading_words(text, blank, count).len() <= count,
        leading_words(text + seq![between] + more, blank + seq![true] + more_blank, count)
            == leading_words(text, blank, count) + leading_words(
            more,
            more_blank,
            (count - leading_words(text, blank, count).len()) as nat,
        ),
    decreases text.len(),
{
    let whole = text + seq![between] + more;
    let marks = blank + seq![true] + more_blank;
    if count == 0 {
        assert(leading_words(whole, marks, count) =~= leading_words(text, blank, count)
            + leading_words(more, more_blank, 0));
    } else if text.len() == 0 {
        assert(whole.drop_first() =~= more);
        assert(marks.drop_first() =~= more_blank);
        assert(leading_words(whole, marks, count) =~= leading_words(text, blank, count)
            + leading_words(more, more_blank, count));
    } else if blank[0] {
        blanks_part_words(
            text.drop_first(),
            blank.drop_first(),
            between,
            more,
            more_blank,
            count,
        );
        assert(whole.drop_first() =~= text.drop_first() + seq![between] + more);
        assert(marks.drop_first() =~= blank.drop_first() + seq![true] + more_blank);
    } else {
        let end = word_end(blank) as int;
        word_end_is_within(blank);
        word_ends_at_a_blank(blank, more_blank);
        blanks_part_words(
            text.skip(end),
            blank.skip(end),
            between,
            more,
            more_blank,
            (count - 1) as nat,
        );
        assert(whole.take(end) =~= text.take(end));
        assert(whole.skip(end) =~= text.skip(end) + seq![between] + more);
        assert(marks.skip(end) =~= blank.skip(end) + seq![true] + more_blank);
        assert(leading_words(whole, marks, count) =~= leading_words(text, blank, count)
            + leading_words(
            more,
            more_blank,
            (count - leading_words(text, blank, count).len()) as nat,
        ));
    }
}

/// A text without blank characters is one word, and an empty one is none.
pub proof fn a_text_without_blanks_is_a_word(text: Seq<char>, blank: Seq<bool>, count: nat)
    requires
        blank.len() == text.len(),
        forall|i: int| 0 <= i < blank.len() ==> !#[trigger] blank[i],
        count > 0,
    ensures
        leading_words(text, blank, count) == (if text.len() == 0 {
            Seq::empty()
        } else {
            seq![text]
        }),
{
    if text.len() > 0 {
        word_without_blanks(blank);
        assert(text.take(text.len() as int) =~= text);
        assert(leading_words(
            text.skip(text.len() as int),
            blank.skip(text.len() as int),
            (count - 1) as nat,
        ) =~= Seq::<Seq<char>>::empty());
        assert(leading_words(text, blank, count) =~= seq![text]);
    }
}

/// Asking for fewer words gives the first of those that asking for more
/// gives.
pub proof fn fewer_words_are_the_first(
    text: Seq<char>,
    blank: Seq<bool>,
    fewer: nat,
    count: nat,
)
    requires
        blank.len() == text.len(),
        fewer <= count,
    ensures
        ({
            let all = leading_words(text, blank, count);
            leading_words(text, blank, fewer) == if all.len() <= fewer {
                all
            } else {
                all.take(fewer as int)
            }
        }),
    decreases text.len(),
{
    let all = leading_words(text, blank, count);
    if fewer == 0 {
        assert(leading_words(text, blank, fewer) =~= all.take(0));
    } else if text.len() > 0 {
        if blank[0] {
            fewer_words_are_the_first(text.drop_first(), blank.drop_first(), fewer, count);
        } else {
            let end = word_end(blank) as int;
            word_end_is_within(blank);
            fewer_words_are_the_first(
                text.skip(end),
                blank.skip(end),
                (fewer - 1) as nat,
                (count - 1) as nat,
            );
            assert(all.drop_first() =~= leading_words(
                text.skip(end),
                blank.skip(end),
                (count - 1) as nat,
            ));
            assert(leading_words(text, blank, fewer) =~= if all.len() <= fewer {
                all
            } else {
                all.take(fewer as int)
            });
        }
    }
}

/// Words are put together with one space between each two of them.
pub proof fn words_are_spaced(words: Seq<Seq<char>>, word: Seq<char>)
    ensures
        spaced(Seq::<Seq<char>>::empty()) == Seq::<char>::empty(),
        spaced(seq![word]) == word,
        words.len() > 0 ==> spaced(words.push(word)) == spaced(words) + seq![' '] + word,
{
    assert(words.push(word).drop_last() =~= words);
}

} // verus!
