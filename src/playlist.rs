use vstd::prelude::*;

use rand::seq::SliceRandom;

use crate::text::{
    chars_of, is_white_space, is_white_space_char, lemma_views_push, piece_views, split_at_newlines,
    split_lines, string_of, views,
};

verus! {

/// `l` without the white space at its end.
pub open spec fn trim_end(l: Seq<char>) -> Seq<char>
    decreases l.len(),
{
    if l.len() > 0 && is_white_space(l.last()) {
        trim_end(l.drop_last())
    } else {
        l
    }
}

/// `l` without the white space at its start.
pub open spec fn trim_start(l: Seq<char>) -> Seq<char>
    decreases l.len(),
{
    if l.len() > 0 && is_white_space(l[0]) {
        trim_start(l.drop_first())
    } else {
        l
    }
}

/// `l` without the white space at either end.
pub open spec fn trimmed(l: Seq<char>) -> Seq<char> {
    trim_start(trim_end(l))
}

/// The entries of a playlist file among `pieces`: each line trimmed, empty
/// ones dropped, in order.
pub open spec fn playlist_lines(pieces: Seq<Seq<char>>) -> Seq<Seq<char>>
    decreases pieces.len(),
{
    if pieces.len() == 0 {
        seq![]
    } else {
        let rest = playlist_lines(pieces.drop_last());
        let t = trimmed(pieces.last());
        if t.len() == 0 {
            rest
        } else {
            rest.push(t)
        }
    }
}

/// The entries of a playlist file: one path per line, white space around it
/// ignored, blank lines skipped.
pub open spec fn playlist_entries(text: Seq<char>) -> Seq<Seq<char>> {
    playlist_lines(split_at_newlines(text))
}

/// The index of the last `c` in `s`, or -1 where there is none.
pub open spec fn last_index_of(s: Seq<char>, c: char) -> int
    decreases s.len(),
{
    if s.len() == 0 {
        -1
    } else if s.last() == c {
        s.len() - 1
    } else {
        last_index_of(s.drop_last(), c)
    }
}

/// The extension of the file that `path` names: what follows the last dot of
/// its last component, where that dot is not the component's first character.
pub open spec fn extension_of(path: Seq<char>) -> Option<Seq<char>> {
    let name = path.subrange(last_index_of(path, '/') + 1, path.len() as int);
    let dot = last_index_of(name, '.');
    if dot <= 0 {
        None
    } else {
        Some(name.subrange(dot + 1, name.len() as int))
    }
}

/// Whether `path` names an MP3 file: its extension is `mp3`, in any case.
pub open spec fn is_mp3(path: Seq<char>) -> bool {
    extension_of(path) matches Some(e) && e.len() == 3 && (e[0] == 'm' || e[0] == 'M') && (e[1]
        == 'p' || e[1] == 'P') && e[2] == '3'
}

proof fn lemma_last_index_bounds(s: Seq<char>, c: char)
    ensures
        -1 <= last_index_of(s, c) < s.len(),
        last_index_of(s, c) >= 0 ==> s[last_index_of(s, c)] == c,
    decreases s.len(),
{
    if s.len() > 0 {
        lemma_last_index_bounds(s.drop_last(), c);
    }
}

/// The index of the last `c` in `cs[lo..]`, relative to `lo`, if there is one.
fn find_last(cs: &Vec<char>, lo: usize, c: char) -> (r: Option<usize>)
    requires
        lo <= cs@.len(),
    ensures
        match r {
            Some(k) => lo + k < cs@.len() && cs@[lo + k] == c && last_index_of(
                cs@.subrange(lo as int, cs@.len() as int),
                c,
            ) == k,
            None => last_index_of(cs@.subrange(lo as int, cs@.len() as int), c) == -1,
        },
{
    let mut hi = cs.len();
    while hi > lo
        invariant
            lo <= hi <= cs@.len(),
            last_index_of(cs@.subrange(lo as int, cs@.len() as int), c) == last_index_of(
                cs@.subrange(lo as int, hi as int),
                c,
            ),
        decreases hi - lo,
    {
        let ghost sub = cs@.subrange(lo as int, hi as int);
        assert(sub.drop_last() =~= cs@.subrange(lo as int, hi - 1));
        if cs[hi - 1] == c {
            return Some(hi - 1 - lo);
        }
        hi = hi - 1;
    }
    None
}

/// Whether `path` names an MP3 file (see `is_mp3`).
pub fn is_mp3_path(path: &str) -> (r: bool)
    ensures
        r == is_mp3(path@),
{
    let cs = chars_of(path);
    let n = cs.len();
    assert(cs@.subrange(0, cs@.len() as int) =~= cs@);
    proof {
        lemma_last_index_bounds(cs@, '/');
    }
    let start = match find_last(&cs, 0, '/') {
        Some(k) => k + 1,
        None => 0,
    };
    let ghost name = cs@.subrange(start as int, cs@.len() as int);
    proof {
        lemma_last_index_bounds(name, '.');
    }
    let dot = match find_last(&cs, start, '.') {
        Some(d) => d,
        None => {
            return false;
        },
    };
    if dot == 0 {
        return false;
    }
    assert(start <= cs@.len());
    assert(dot < name.len());
    let e = start + dot + 1;
    let ghost ext = name.subrange(dot + 1, name.len() as int);
    assert(ext =~= cs@.subrange(e as int, cs@.len() as int));
    if n - e != 3 {
        return false;
    }
    assert(ext[0] == cs@[e as int]);
    assert(ext[1] == cs@[e + 1]);
    assert(ext[2] == cs@[e + 2]);
    (cs[e] == 'm' || cs[e] == 'M') && (cs[e + 1] == 'p' || cs[e + 1] == 'P') && cs[e + 2] == '3'
}


/// The bounds of `cs` without the white space at either end.
fn trimmed_bounds(cs: &Vec<char>) -> (r: (usize, usize))
    ensures
        r.0 <= r.1 <= cs@.len(),
        cs@.subrange(r.0 as int, r.1 as int) == trimmed(cs@),
{
    let mut hi = cs.len();
    assert(cs@.subrange(0, hi as int) =~= cs@);
    while hi > 0 && is_white_space_char(cs[hi - 1])
        invariant
            hi <= cs@.len(),
            trim_end(cs@) == trim_end(cs@.subrange(0, hi as int)),
        decreases hi,
    {
        assert(cs@.subrange(0, hi as int).drop_last() =~= cs@.subrange(0, hi - 1));
        hi = hi - 1;
    }
    let mut lo: usize = 0;
    assert(cs@.subrange(lo as int, hi as int) =~= cs@.subrange(0, hi as int));
    while lo < hi && is_white_space_char(cs[lo])
        invariant
            lo <= hi <= cs@.len(),
            trim_end(cs@) == cs@.subrange(0, hi as int),
            trim_start(cs@.subrange(0, hi as int)) == trim_start(cs@.subrange(lo as int, hi as int)),
        decreases hi - lo,
    {
        assert(cs@.subrange(lo as int, hi as int).drop_first() =~= cs@.subrange(lo + 1, hi as int));
        lo = lo + 1;
    }
    (lo, hi)
}

/// Appends the entry that the line `piece` holds, unless it is blank.
fn push_playlist_entry(out: &mut Vec<String>, piece: &Vec<char>)
    ensures
        views(final(out)@) == if trimmed(piece@).len() == 0 {
            views(old(out)@)
        } else {
            views(old(out)@).push(trimmed(piece@))
        },
{
    let (lo, hi) = trimmed_bounds(piece);
    if lo < hi {
        let entry = string_of(&piece.as_slice()[lo..hi]);
        proof {
            lemma_views_push(out@, entry);
        }
        out.push(entry);
    }
}

/// Reads the entries of a playlist file: one path per line, white space
/// around it ignored, blank lines skipped.
pub fn parse_playlist(text: &str) -> (r: Vec<String>)
    ensures
        views(r@) == playlist_entries(text@),
{
    let pieces = split_lines(text);
    let ghost all = piece_views(pieces@);
    let mut out: Vec<String> = Vec::new();
    let mut i: usize = 0;
    assert(views(out@) =~= playlist_lines(all.take(0)));
    while i < pieces.len()
        invariant
            i <= pieces@.len(),
            all == piece_views(pieces@),
            views(out@) == playlist_lines(all.take(i as int)),
        decreases pieces@.len() - i,
    {
        push_playlist_entry(&mut out, &pieces[i]);
        assert(all.take(i + 1).drop_last() =~= all.take(i as int));
        assert(all.take(i + 1).last() == pieces@[i as int]@);
        i = i + 1;
    }
    assert(all.take(pieces@.len() as int) =~= all);
    out
}

/// Relies on rand's `SliceRandom::shuffle`, driven by the thread-local
/// generator of `rand::rng`: it only swaps items, so the same tracks come out
/// in an order drawn at random.
#[verifier::external_body]
fn shuffle_tracks(tracks: &mut Vec<String>)
    ensures
        final(tracks)@.to_multiset() == old(tracks)@.to_multiset(),
{
    let mut rng = rand::rng();
    tracks.shuffle(&mut rng);
}

/// The order in which the offered tracks are handed to a session: as given,
/// or, for a randomized session, the same tracks in an order drawn at random.
pub fn playing_order(tracks: Vec<String>, random: bool) -> (r: Vec<String>)
    ensures
        !random ==> r@ == tracks@,
        random ==> r@.to_multiset() == tracks@.to_multiset(),
{
    let mut order = tracks;
    if random {
        shuffle_tracks(&mut order);
    }
    order
}

} // verus!
