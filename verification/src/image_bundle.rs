use vstd::prelude::*;
use vstd::string::{StrSliceExecFns, StringExecFns};
use crate::comps::texts;
use crate::phys_state::{digit_char, numeral};

verus! {

/// The place of an image in the spritesheet, in pixels.
#[derive(Clone, Copy, Debug, PartialEq, Eq, Structural)]
pub struct Rect {
    pub x: u32,
    pub y: u32,
    pub w: u32,
    pub h: u32,
}

/// One line of the spritesheet's index: an image's name and its place.
#[derive(Debug, PartialEq, Eq)]
pub struct ImageEntry {
    pub name: String,
    pub rect: Rect,
}

/// The mathematical value of an [`ImageEntry`].
pub struct ImageEntryView {
    pub name: Seq<char>,
    pub rect: Rect,
}

impl View for ImageEntry {
    type V = ImageEntryView;

    open spec fn view(&self) -> ImageEntryView {
        ImageEntryView { name: self.name@, rect: self.rect }
    }
}

/// The index of the spritesheet: where each image lies, by the image's name.
#[derive(Debug, PartialEq, Eq)]
pub struct ImageBundle {
    /// The entries in the order of the index. Of two entries with one name
    /// the later one counts.
    pub map: Vec<ImageEntry>,
}

impl View for ImageBundle {
    type V = Seq<ImageEntryView>;

    open spec fn view(&self) -> Seq<ImageEntryView> {
        Seq::new(self.map@.len(), |i: int| self.map[i]@)
    }
}

/// A line of the index that is not of the form
/// `<name> <ignored> <x> <y> <w> <h>`: its number, counted from 0.
#[derive(Clone, Copy, Debug, PartialEq, Eq, Structural)]
pub struct SpritesheetError {
    pub line: usize,
}

/// The pieces into which the separator `sep` cuts a text: one more than it
/// occurs in the text.
pub open spec fn fields(s: Seq<char>, sep: char) -> Seq<Seq<char>>
    decreases s.len(),
{
    if s.len() == 0 {
        seq![Seq::empty()]
    } else {
        let init = fields(s.drop_last(), sep);
        if s.last() == sep {
            init.push(Seq::empty())
        } else {
            init.update(init.len() - 1, init.last().push(s.last()))
        }
    }
}

/// Whether a character is a decimal digit.
pub open spec fn is_digit(c: char) -> bool {
    '0' <= c <= '9'
}

/// The number that the first `n` characters of a text of decimal digits
/// stand for; `None` where one of them is no digit.
pub open spec fn digits_value(s: Seq<char>, n: int) -> Option<nat>
    decreases n,
{
    if n <= 0 {
        Some(0)
    } else {
        match digits_value(s, n - 1) {
            Some(v) => if is_digit(s[n - 1]) {
                Some((v * 10 + (s[n - 1] as nat - '0' as nat)) as nat)
            } else {
                None
            },
            None => None,
        }
    }
}

/// The number that a decimal numeral stands for: a text of one or more
/// decimal digits whose value fits.
pub open spec fn decimal(s: Seq<char>) -> Option<u32> {
    match digits_value(s, s.len() as int) {
        Some(v) => if s.len() > 0 && v <= u32::MAX {
            Some(v as u32)
        } else {
            None
        },
        None => None,
    }
}

/// A longer prefix of a text of digits stands for no smaller number, and
/// for none where a shorter one stands for none.
pub proof fn lemma_digits_grow(s: Seq<char>, n: int, m: int)
    requires
        0 <= n <= m,
    ensures
        digits_value(s, n) is None ==> digits_value(s, m) is None,
        digits_value(s, m) is Some ==> digits_value(s, n) is Some && digits_value(s, n)->0
            <= digits_value(s, m)->0,
    decreases m - n,
{
    if n < m {
        lemma_digits_grow(s, n, m - 1);
    }
}

/// What the first `n` characters of a text of digits stand for depends on
/// those `n` only.
pub proof fn lemma_digits_prefix(a: Seq<char>, b: Seq<char>, n: int)
    requires
        0 <= n <= a.len(),
        n <= b.len(),
        forall|i: int| 0 <= i < n ==> a[i] == b[i],
    ensures
        digits_value(a, n) == digits_value(b, n),
    decreases n,
{
    if n > 0 {
        lemma_digits_prefix(a, b, n - 1);
    }
}

/// The decimal numeral of a number stands for that number.
pub proof fn lemma_numeral_reads_back(n: nat)
    ensures
        numeral(n).len() > 0,
        digits_value(numeral(n), numeral(n).len() as int) == Some(n),
        n <= u32::MAX ==> decimal(numeral(n)) == Some(n as u32),
    decreases n,
{
    let s = numeral(n);
    if n < 10 {
        assert(s.len() == 1);
        assert(digits_value(s, 0) == Some(0nat));
        assert(is_digit(s[0]));
        assert(s[0] as nat - '0' as nat == n);
    } else {
        let front = numeral(n / 10);
        lemma_numeral_reads_back(n / 10);
        lemma_digits_prefix(s, front, front.len() as int);
        assert(s.len() == front.len() + 1);
        let d = digit_char(n % 10);
        assert(s[s.len() - 1] == d);
        assert(is_digit(d));
        assert(d as nat - '0' as nat == n % 10);
        assert((n / 10) * 10 + n % 10 == n);
    }
}

/// The entry that a line of the index stands for, by the pieces into which
/// blanks cut it: the first piece is the name, the second is passed over, the
/// next four are the decimal numerals of x, y, width and height.
pub open spec fn line_entry(words: Seq<Seq<char>>) -> Option<ImageEntryView> {
    if words.len() >= 6 && decimal(words[2]) is Some && decimal(words[3]) is Some && decimal(
        words[4],
    ) is Some && decimal(words[5]) is Some {
        Some(
            ImageEntryView {
                name: words[0],
                rect: Rect {
                    x: decimal(words[2])->0,
                    y: decimal(words[3])->0,
                    w: decimal(words[4])->0,
                    h: decimal(words[5])->0,
                },
            },
        )
    } else {
        None
    }
}

/// A line without the carriage return at its end, if it has one.
pub open spec fn trimmed(line: Seq<char>) -> Seq<char> {
    if line.len() > 0 && line.last() == '\r' {
        line.drop_last()
    } else {
        line
    }
}

/// The entries that the first `n` lines stand for, in order. A carriage
/// return at the end of a line does not count, and empty lines are passed
/// over. The result is the number of the first line that stands for no entry,
/// where there is one.
pub open spec fn entries(lines: Seq<Seq<char>>, n: int) -> Result<
    Seq<ImageEntryView>,
    SpritesheetError,
>
    decreases n,
{
    if n <= 0 {
        Ok(Seq::empty())
    } else {
        match entries(lines, n - 1) {
            Err(e) => Err(e),
            Ok(acc) => if trimmed(lines[n - 1]).len() == 0 {
                Ok(acc)
            } else {
                match line_entry(fields(trimmed(lines[n - 1]), ' ')) {
                    Some(entry) => Ok(acc.push(entry)),
                    None => Err(SpritesheetError { line: (n - 1) as usize }),
                }
            },
        }
    }
}

/// The index that a text stands for: its lines are the pieces into which
/// line feeds cut it.
pub open spec fn parsed(contents: Seq<char>) -> Result<Seq<ImageEntryView>, SpritesheetError> {
    entries(fields(contents, '\n'), fields(contents, '\n').len() as int)
}

/// An error among the first `n` lines is the error of every longer prefix.
pub proof fn lemma_entries_error_stays(lines: Seq<Seq<char>>, n: int, m: int)
    requires
        0 <= n <= m,
        entries(lines, n) is Err,
    ensures
        entries(lines, m) == entries(lines, n),
    decreases m - n,
{
    if n < m {
        lemma_entries_error_stays(lines, n, m - 1);
    }
}

/// The place of the image called `name`, by the last of the first `n`
/// entries with that name.
pub open spec fn lookup(map: Seq<ImageEntryView>, name: Seq<char>, n: int) -> Option<Rect>
    decreases n,
{
    if n <= 0 {
        None
    } else if map[n - 1].name == name {
        Some(map[n - 1].rect)
    } else {
        lookup(map, name, n - 1)
    }
}

/// A line without the carriage return at its end, if it has one.
pub fn trim(line: &str) -> (r: &str)
    ensures
        r@ == trimmed(line@),
{
    let n = line.unicode_len();
    if n > 0 && line.get_char(n - 1) == '\r' {
        line.substring_char(0, n - 1)
    } else {
        line
    }
}

/// Cuts a text at every occurrence of the separator.
pub fn split(s: &str, sep: char) -> (r: Vec<String>)
    ensures
        texts(r@) == fields(s@, sep),
{
    let n = s.unicode_len();
    let mut out: Vec<String> = Vec::new();
    let mut start: usize = 0;
    let mut i: usize = 0;
    assert(s@.take(0) =~= Seq::empty());
    assert(texts(out@).push(s@.subrange(0, 0)) =~= fields(s@.take(0), sep));
    while i < n
        invariant
            start <= i <= n,
            n == s@.len(),
            fields(s@.take(i as int), sep) == texts(out@).push(
                s@.subrange(start as int, i as int),
            ),
        decreases n - i,
    {
        let c = s.get_char(i);
        let ghost before = texts(out@);
        let ghost piece = s@.subrange(start as int, i as int);
        proof {
            let t = s@.take(i as int + 1);
            assert(t.drop_last() =~= s@.take(i as int));
            assert(t.last() == c);
        }
        if c == sep {
            out.push(String::from_str(s.substring_char(start, i)));
            assert(texts(out@) =~= before.push(piece));
            start = i + 1;
            assert(s@.subrange(start as int, i as int + 1) =~= Seq::empty());
        } else {
            assert(c == s@[i as int]);
            assert(piece.push(c) =~= s@.subrange(start as int, i as int + 1));
            assert(before.push(piece).update(before.len() as int, piece.push(c)) =~= before.push(
                s@.subrange(start as int, i as int + 1),
            ));
        }
        i += 1;
    }
    let ghost before = texts(out@);
    out.push(String::from_str(s.substring_char(start, n)));
    assert(texts(out@) =~= before.push(s@.subrange(start as int, n as int)));
    assert(s@.take(n as int) =~= s@);
    out
}

/// The number that a decimal numeral stands for.
pub fn parse_decimal(s: &str) -> (r: Option<u32>)
    ensures
        r == decimal(s@),
{
    let n = s.unicode_len();
    if n == 0 {
        return None;
    }
    let mut value: u64 = 0;
    let mut i: usize = 0;
    while i < n
        invariant
            i <= n,
            n == s@.len(),
            digits_value(s@, i as int) == Some(value as nat),
            value <= u32::MAX,
        decreases n - i,
    {
        let c = s.get_char(i);
        if c < '0' || c > '9' {
            proof {
                lemma_digits_grow(s@, i as int + 1, n as int);
            }
            return None;
        }
        let digit = (c as u64) - ('0' as u64);
        let next = value * 10 + digit;
        if next > 0xFFFF_FFFF {
            proof {
                lemma_digits_grow(s@, i as int + 1, n as int);
            }
            return None;
        }
        value = next;
        i += 1;
    }
    Some(value as u32)
}

impl ImageBundle {
    /// The entry that a line of the index stands for.
    pub fn parse_line(line: &str) -> (r: Option<ImageEntry>)
        ensures
            match r {
                Some(entry) => line_entry(fields(line@, ' ')) == Some(entry@),
                None => line_entry(fields(line@, ' ')) is None,
            },
    {
        let words = split(line, ' ');
        if words.len() < 6 {
            return None;
        }
        assert(texts(words@)[0] == words[0]@);
        assert(texts(words@)[2] == words[2]@);
        assert(texts(words@)[3] == words[3]@);
        assert(texts(words@)[4] == words[4]@);
        assert(texts(words@)[5] == words[5]@);
        let x = match parse_decimal(words[2].as_str()) {
            Some(v) => v,
            None => {
                return None;
            },
        };
        let y = match parse_decimal(words[3].as_str()) {
            Some(v) => v,
            None => {
                return None;
            },
        };
        let w = match parse_decimal(words[4].as_str()) {
            Some(v) => v,
            None => {
                return None;
            },
        };
        let h = match parse_decimal(words[5].as_str()) {
            Some(v) => v,
            None => {
                return None;
            },
        };
        Some(ImageEntry { name: words[0].clone(), rect: Rect { x, y, w, h } })
    }

    /// The index that the text of the spritesheet's index file stands for.
    /// Each line that is not empty is of the form
    /// `<name> <ignored> <x> <y> <w> <h>`, its parts set apart by one blank
    /// each.
    ///
    /// Fails with the number of the first line that is not of that form.
    pub fn new(contents: &str) -> (r: Result<ImageBundle, SpritesheetError>)
        ensures
            match r {
                Ok(bundle) => parsed(contents@) == Ok::<Seq<ImageEntryView>, SpritesheetError>(
                    bundle@,
                ),
                Err(e) => parsed(contents@) == Err::<Seq<ImageEntryView>, SpritesheetError>(e),
            },
    {
        let lines = split(contents, '\n');
        let ghost ls = fields(contents@, '\n');
        let mut map: Vec<ImageEntry> = Vec::new();
        let mut i: usize = 0;
        assert(Seq::new(map@.len(), |k: int| map[k]@) =~= Seq::<ImageEntryView>::empty());
        while i < lines.len()
            invariant
                i <= lines.len(),
                ls == texts(lines@),
                ls == fields(contents@, '\n'),
                entries(ls, i as int) == Ok::<Seq<ImageEntryView>, SpritesheetError>(
                    Seq::new(map@.len(), |k: int| map[k]@),
                ),
            decreases lines.len() - i,
        {
            assert(ls[i as int] == lines[i as int]@);
            let line = trim(lines[i].as_str());
            if line.unicode_len() > 0 {
                match ImageBundle::parse_line(line) {
                    Some(entry) => {
                        let ghost before = Seq::new(map@.len(), |k: int| map[k]@);
                        let ghost added = entry@;
                        map.push(entry);
                        assert(Seq::new(map@.len(), |k: int| map[k]@) =~= before.push(added));
                    },
                    None => {
                        proof {
                            lemma_entries_error_stays(ls, i as int + 1, ls.len() as int);
                        }
                        return Err(SpritesheetError { line: i });
                    },
                }
            }
            i += 1;
        }
        Ok(ImageBundle { map })
    }

    /// Where the image called `name` lies in the spritesheet.
    pub fn get(&self, name: &str) -> (r: Option<Rect>)
        ensures
            r == lookup(self@, name@, self@.len() as int),
    {
        let wanted = String::from_str(name);
        let mut i: usize = self.map.len();
        while i > 0
            invariant
                i <= self.map.len(),
                wanted@ == name@,
                lookup(self@, name@, self@.len() as int) == lookup(self@, name@, i as int),
            decreases i,
        {
            assert(self@[i as int - 1] == self.map[i as int - 1]@);
            if self.map[i - 1].name == wanted {
                return Some(self.map[i - 1].rect);
            }
            i -= 1;
        }
        None
    }
}

} // verus!
