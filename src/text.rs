use vstd::prelude::*;
use vstd::std_specs::iter::IteratorSpec;

verus! {

/// The characters that `char::is_whitespace` accepts: those with the Unicode
/// `White_Space` property.
pub open spec fn is_white_space(c: char) -> bool {
    let u = c as u32;
    ||| 0x09 <= u <= 0x0D
    ||| u == 0x20
    ||| u == 0x85
    ||| u == 0xA0
    ||| u == 0x1680
    ||| 0x2000 <= u <= 0x200A
    ||| u == 0x2028
    ||| u == 0x2029
    ||| u == 0x202F
    ||| u == 0x205F
    ||| u == 0x3000
}

/// A line made of white space only (or of nothing at all).
pub open spec fn is_blank(l: Seq<char>) -> bool {
    forall|i: int| 0 <= i < l.len() ==> is_white_space(#[trigger] l[i])
}

/// The pieces of `s` between line feeds, in order: one more piece than there
/// are line feeds in `s`.
pub open spec fn split_at_newlines(s: Seq<char>) -> Seq<Seq<char>>
    decreases s.len(),
{
    if s.len() == 0 {
        seq![Seq::empty()]
    } else {
        let pieces = split_at_newlines(s.drop_last());
        if s.last() == '\n' {
            pieces.push(Seq::empty())
        } else {
            pieces.update(pieces.len() - 1, pieces.last().push(s.last()))
        }
    }
}

/// A line without the carriage return of a `\r\n` line ending.
pub open spec fn strip_cr(l: Seq<char>) -> Seq<char> {
    if l.len() > 0 && l.last() == '\r' {
        l.drop_last()
    } else {
        l
    }
}

/// The lines among `pieces` that are not blank, carriage return dropped, in order.
pub open spec fn entry_lines(pieces: Seq<Seq<char>>) -> Seq<Seq<char>>
    decreases pieces.len(),
{
    if pieces.len() == 0 {
        seq![]
    } else {
        let rest = entry_lines(pieces.drop_last());
        let line = strip_cr(pieces.last());
        if is_blank(line) {
            rest
        } else {
            rest.push(line)
        }
    }
}

/// The entries of a track file: one per line, blank lines ignored.
pub open spec fn track_lines(text: Seq<char>) -> Seq<Seq<char>> {
    entry_lines(split_at_newlines(text))
}

/// The text of a track file holding `entries`, each on a line of its own.
pub open spec fn rendered_lines(entries: Seq<Seq<char>>) -> Seq<char>
    decreases entries.len(),
{
    if entries.len() == 0 {
        Seq::empty()
    } else {
        rendered_lines(entries.drop_last()) + entries.last().push('\n')
    }
}

/// The views of a sequence of strings.
pub open spec fn views(v: Seq<String>) -> Seq<Seq<char>> {
    v.map_values(|s: String| s@)
}

/// The characters of the text, in order.
pub(crate) fn chars_of(s: &str) -> (r: Vec<char>)
    ensures
        r@ == s@,
{
    broadcast use vstd::string::axiom_spec_iter, vstd::string::next_postcondition;

    let mut out: Vec<char> = Vec::new();
    let mut it = s.chars();
    loop
        invariant
            it.obeys_prophetic_iter_laws(),
            it.decrease() is Some,
            out@ + it.remaining() == s@,
        decreases it.decrease()->0,
    {
        match it.next() {
            Some(c) => {
                assert(out@.push(c) + it.remaining() =~= out@ + (seq![c] + it.remaining()));
                out.push(c);
            },
            None => {
                assert(out@ =~= s@);
                return out;
            },
        }
    }
}

/// Relies on `String: FromIterator<char>`: a string of exactly these characters.
#[verifier::external_body]
pub(crate) fn string_of(cs: &[char]) -> (r: String)
    ensures
        r@ == cs@,
{
    cs.iter().collect()
}

pub fn is_white_space_char(c: char) -> (r: bool)
    ensures
        r == is_white_space(c),
{
    let u = c as u32;
    (0x09 <= u && u <= 0x0D) || u == 0x20 || u == 0x85 || u == 0xA0 || u == 0x1680 || (0x2000
        <= u && u <= 0x200A) || u == 0x2028 || u == 0x2029 || u == 0x202F || u == 0x205F || u
        == 0x3000
}

/// Appends the characters of `cs` to `buf`.
pub fn push_chars(buf: &mut Vec<char>, cs: &Vec<char>)
    ensures
        final(buf)@ == old(buf)@ + cs@,
{
    let ghost start = buf@;
    let mut i: usize = 0;
    while i < cs.len()
        invariant
            i <= cs@.len(),
            buf@ == start + cs@.subrange(0, i as int),
        decreases cs@.len() - i,
    {
        buf.push(cs[i]);
        assert(start + cs@.subrange(0, i as int + 1) =~= (start + cs@.subrange(0, i as int)).push(
            cs@[i as int],
        ));
        i = i + 1;
    }
    assert(cs@.subrange(0, cs@.len() as int) =~= cs@);
}

/// Appends the characters of `s` to `buf`.
pub fn push_str(buf: &mut Vec<char>, s: &str)
    ensures
        final(buf)@ == old(buf)@ + s@,
{
    let cs = chars_of(s);
    push_chars(buf, &cs);
}

/// Whether two texts hold the same characters.
pub fn same_text(a: &str, b: &str) -> (r: bool)
    ensures
        r == (a@ == b@),
{
    let x = chars_of(a);
    let y = chars_of(b);
    if x.len() != y.len() {
        return false;
    }
    let mut i: usize = 0;
    while i < x.len()
        invariant
            i <= x@.len(),
            x@ == a@,
            y@ == b@,
            x@.len() == y@.len(),
            forall|k: int| 0 <= k < i ==> x@[k] == y@[k],
        decreases x@.len() - i,
    {
        if x[i] != y[i] {
            assert(x@[i as int] != y@[i as int]);
            assert(x@ != y@);
            return false;
        }
        i = i + 1;
    }
    assert(x@ =~= y@);
    true
}

/// The ASCII digit for `d`, below ten.
pub open spec fn digit_char(d: nat) -> char {
    if d == 0 {
        '0'
    } else if d == 1 {
        '1'
    } else if d == 2 {
        '2'
    } else if d == 3 {
        '3'
    } else if d == 4 {
        '4'
    } else if d == 5 {
        '5'
    } else if d == 6 {
        '6'
    } else if d == 7 {
        '7'
    } else if d == 8 {
        '8'
    } else {
        '9'
    }
}

/// `n` written in base ten, without leading zeros.
pub open spec fn decimal(n: nat) -> Seq<char>
    decreases n,
{
    if n < 10 {
        seq![digit_char(n)]
    } else {
        decimal(n / 10).push(digit_char(n % 10))
    }
}

/// `n` written in base ten, with a leading zero below ten.
pub open spec fn two_digits(n: nat) -> Seq<char> {
    if n < 10 {
        seq!['0', digit_char(n)]
    } else {
        decimal(n)
    }
}

fn digit(d: u64) -> (r: char)
    requires
        d < 10,
    ensures
        r == digit_char(d as nat),
{
    match d {
        0 => '0',
        1 => '1',
        2 => '2',
        3 => '3',
        4 => '4',
        5 => '5',
        6 => '6',
        7 => '7',
        8 => '8',
        _ => '9',
    }
}

/// Appends `n` written in base ten.
pub fn push_decimal(buf: &mut Vec<char>, n: u64)
    ensures
        final(buf)@ == old(buf)@ + decimal(n as nat),
    decreases n,
{
    if n >= 10 {
        push_decimal(buf, n / 10);
    }
    buf.push(digit(n % 10));
    proof {
        if n >= 10 {
            assert(old(buf)@ + decimal(n as nat) =~= old(buf)@ + decimal((n / 10) as nat) + seq![
                digit_char((n % 10) as nat),
            ]);
        } else {
            assert(old(buf)@ + decimal(n as nat) =~= old(buf)@.push(digit_char(n as nat)));
        }
    }
}

/// Appends `n` written in base ten, with a leading zero below ten.
pub fn push_two_digits(buf: &mut Vec<char>, n: u64)
    ensures
        final(buf)@ == old(buf)@ + two_digits(n as nat),
{
    if n < 10 {
        buf.push('0');
        buf.push(digit(n));
        assert(old(buf)@ + two_digits(n as nat) =~= old(buf)@.push('0').push(digit_char(n as nat)));
    } else {
        push_decimal(buf, n);
    }
}

/// The index of the first string of `v` equal to `s`, if there is one.
pub fn position_of(v: &Vec<String>, s: &String) -> (r: Option<usize>)
    ensures
        match r {
            Some(i) => {
                &&& i < v@.len()
                &&& v@[i as int]@ == s@
                &&& forall|k: int| 0 <= k < i ==> v@[k]@ != s@
            },
            None => forall|k: int| 0 <= k < v@.len() ==> v@[k]@ != s@,
        },
{
    let mut i: usize = 0;
    while i < v.len()
        invariant
            i <= v@.len(),
            forall|k: int| 0 <= k < i ==> v@[k]@ != s@,
        decreases v@.len() - i,
    {
        if v[i] == *s {
            return Some(i);
        }
        i = i + 1;
    }
    None
}

pub(crate) proof fn lemma_split_nonempty(s: Seq<char>)
    ensures
        split_at_newlines(s).len() >= 1,
    decreases s.len(),
{
    if s.len() > 0 {
        lemma_split_nonempty(s.drop_last());
    }
}

pub(crate) proof fn lemma_views_push(v: Seq<String>, x: String)
    ensures
        views(v.push(x)) == views(v).push(x@),
{
    assert(views(v.push(x)) =~= views(v).push(x@));
}

/// Whether `cs[0..end]` is blank.
fn is_blank_prefix(cs: &Vec<char>, end: usize) -> (r: bool)
    requires
        end <= cs@.len(),
    ensures
        r == is_blank(cs@.subrange(0, end as int)),
{
    let mut i: usize = 0;
    while i < end
        invariant
            i <= end <= cs@.len(),
            is_blank(cs@.subrange(0, i as int)),
        decreases end - i,
    {
        if !is_white_space_char(cs[i]) {
            assert(cs@.subrange(0, end as int)[i as int] == cs@[i as int]);
            return false;
        }
        assert(is_blank(cs@.subrange(0, i as int + 1))) by {
            assert forall|k: int| 0 <= k < i + 1 implies is_white_space(
                #[trigger] cs@.subrange(0, i as int + 1)[k],
            ) by {
                if k < i {
                    assert(cs@.subrange(0, i as int + 1)[k] == cs@.subrange(0, i as int)[k]);
                }
            }
        }
        i = i + 1;
    }
    true
}

/// Appends the entry held by the line `piece`, unless it is blank.
fn push_entry(out: &mut Vec<String>, piece: &Vec<char>)
    ensures
        ({
            let line = strip_cr(piece@);
            views(final(out)@) == if is_blank(line) {
                views(old(out)@)
            } else {
                views(old(out)@).push(line)
            }
        }),
{
    let mut end = piece.len();
    if end > 0 && piece[end - 1] == '\r' {
        end = end - 1;
    }
    assert(strip_cr(piece@) =~= piece@.subrange(0, end as int));
    if !is_blank_prefix(piece, end) {
        let line = string_of(&piece.as_slice()[0..end]);
        proof {
            lemma_views_push(out@, line);
        }
        out.push(line);
    }
}

/// The character views of a sequence of pieces.
pub open spec fn piece_views(v: Seq<Vec<char>>) -> Seq<Seq<char>> {
    v.map_values(|p: Vec<char>| p@)
}

proof fn lemma_piece_views_push(v: Seq<Vec<char>>, x: Vec<char>)
    ensures
        piece_views(v.push(x)) == piece_views(v).push(x@),
{
    assert(piece_views(v.push(x)) =~= piece_views(v).push(x@));
}

/// Cuts `text` at its line feeds (see `split_at_newlines`).
pub fn split_lines(text: &str) -> (r: Vec<Vec<char>>)
    ensures
        piece_views(r@) == split_at_newlines(text@),
{
    let cs = chars_of(text);
    let mut done: Vec<Vec<char>> = Vec::new();
    let mut piece: Vec<char> = Vec::new();
    let mut i: usize = 0;
    proof {
        assert(cs@.subrange(0, 0) =~= Seq::<char>::empty());
        assert(piece_views(done@) =~= Seq::<Seq<char>>::empty());
    }
    while i < cs.len()
        invariant
            i <= cs@.len(),
            split_at_newlines(cs@.subrange(0, i as int)).len() >= 1,
            piece@ == split_at_newlines(cs@.subrange(0, i as int)).last(),
            piece_views(done@) == split_at_newlines(cs@.subrange(0, i as int)).drop_last(),
        decreases cs@.len() - i,
    {
        let c = cs[i];
        let ghost before = cs@.subrange(0, i as int);
        let ghost after = cs@.subrange(0, i as int + 1);
        proof {
            assert(after.drop_last() =~= before);
            lemma_split_nonempty(after);
        }
        if c == '\n' {
            proof {
                lemma_piece_views_push(done@, piece);
            }
            done.push(piece);
            piece = Vec::new();
            proof {
                let p = split_at_newlines(before);
                assert(split_at_newlines(after) == p.push(Seq::empty()));
                assert(p.push(Seq::<char>::empty()).drop_last() =~= p);
                assert(p.drop_last().push(p.last()) =~= p);
                assert(piece@ =~= Seq::<char>::empty());
            }
        } else {
            piece.push(c);
            proof {
                let p = split_at_newlines(before);
                let q = p.update(p.len() - 1, p.last().push(c));
                assert(split_at_newlines(after) == q);
                assert(q.drop_last() =~= p.drop_last());
            }
        }
        i = i + 1;
    }
    proof {
        lemma_piece_views_push(done@, piece);
        let p = split_at_newlines(cs@);
        assert(cs@.subrange(0, cs@.len() as int) =~= cs@);
        assert(p.drop_last().push(p.last()) =~= p);
    }
    done.push(piece);
    done
}

/// Reads the entries of a track file: one per line, blank lines ignored, a
/// `\r\n` line ending accepted.
pub fn parse_track_lines(text: &str) -> (r: Vec<String>)
    ensures
        views(r@) == track_lines(text@),
{
    let pieces = split_lines(text);
    let ghost all = piece_views(pieces@);
    let mut out: Vec<String> = Vec::new();
    let mut i: usize = 0;
    assert(views(out@) =~= entry_lines(all.take(0)));
    while i < pieces.len()
        invariant
            i <= pieces@.len(),
            all == piece_views(pieces@),
            views(out@) == entry_lines(all.take(i as int)),
        decreases pieces@.len() - i,
    {
        push_entry(&mut out, &pieces[i]);
        assert(all.take(i + 1).drop_last() =~= all.take(i as int));
        assert(all.take(i + 1).last() == pieces@[i as int]@);
        i = i + 1;
    }
    assert(all.take(pieces@.len() as int) =~= all);
    out
}

} // verus!
