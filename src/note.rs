use vstd::prelude::*;
use vstd::string::*;
use crate::fuzzy::{
    ci_subsequence, fuzzy_score, is_top_ranking, rank_matches, ranks_before, score_view, scores_view,
    skim_score,
};
use crate::timestamp::{
    Timestamp, has_separator, is_ascii_digit, rfc2822_reading, rfc2822_text, sep_at,
    timestamp_valid,
};

verus! {

/// A note seen as values: the instant and offset of its timestamp, and its text.
pub type NoteView = ((int, int), Seq<char>);

/// The character at `i` is a line break to drop: a `'\n'`, or the `'\r'` of a
/// `"\r\n"`.
pub open spec fn breaks_line_at(s: Seq<char>, i: int) -> bool {
    s[i] == '\n' || (s[i] == '\r' && i + 1 < s.len() && s[i + 1] == '\n')
}

/// The characters of `s[..k]` that do not break the line, in order.
pub open spec fn kept_prefix(s: Seq<char>, k: int) -> Seq<char>
    decreases k,
{
    if k <= 0 {
        Seq::empty()
    } else if breaks_line_at(s, k - 1) {
        kept_prefix(s, k - 1)
    } else {
        kept_prefix(s, k - 1).push(s[k - 1])
    }
}

/// `s` with every `'\n'` taken out, together with the `'\r'` of each `"\r\n"`.
/// Any other `'\r'` stays.
pub open spec fn strip_newlines(s: Seq<char>) -> Seq<char> {
    kept_prefix(s, s.len() as int)
}

pub open spec fn no_newline(s: Seq<char>) -> bool {
    forall|i: int| 0 <= i < s.len() ==> s[i] != '\n'
}

pub open spec fn separator() -> Seq<char> {
    seq![' ', '-', ' ']
}

/// The log line of a note: its RFC 2822 timestamp, `" - "`, and its text.
pub open spec fn note_line(n: NoteView) -> Seq<char> {
    rfc2822_text(n.0.0, n.0.1) + separator() + n.1
}

/// The position of the first `" - "` in `s` at or after `k`; -1 if none.
pub open spec fn sep_index_from(s: Seq<char>, k: int) -> int
    decreases s.len() - k,
{
    if k < 0 || s.len() < k + 3 {
        -1
    } else if sep_at(s, k) {
        k
    } else {
        sep_index_from(s, k + 1)
    }
}

/// What a log line holds: split at its first `" - "`, an RFC 2822 timestamp
/// that a `Timestamp` can hold before it, and a text without `'\n'` after it.
/// `None` marks a corrupt record.
pub open spec fn line_reading(s: Seq<char>) -> Option<NoteView> {
    let i = sep_index_from(s, 0);
    if i < 0 {
        None
    } else {
        let value = s.subrange(i + 3, s.len() as int);
        match rfc2822_reading(s.subrange(0, i)) {
            Some(t) => if timestamp_valid(t.0, t.1) && no_newline(value) {
                Some((t, value))
            } else {
                None
            },
            None => None,
        }
    }
}

/// A timestamped note.
pub struct Note {
    pub timestamp: Timestamp,
    pub note_value: String,
}

impl View for Note {
    type V = NoteView;

    open spec fn view(&self) -> NoteView {
        (self.timestamp@, self.note_value@)
    }
}

impl Clone for Note {
    fn clone(&self) -> (r: Note)
        ensures
            r@ == self@,
    {
        Note { timestamp: self.timestamp, note_value: self.note_value.clone() }
    }
}

/// The first position of a line that is not a note.
#[derive(Clone, Copy, Debug, PartialEq, Eq, Structural)]
pub struct CorruptRecord {
    pub index: usize,
}

proof fn lemma_sep_index(s: Seq<char>, j: int, k: int)
    requires
        0 <= k <= j,
        sep_at(s, j),
        forall|m: int| k <= m < j ==> !sep_at(s, m),
    ensures
        sep_index_from(s, k) == j,
    decreases j - k,
{
    if k < j {
        lemma_sep_index(s, j, k + 1);
    }
}

/// A line made of a timestamp text `t` (no `" - "` in it, ending in a digit),
/// the separator and a text `v` splits back into `t` and `v`.
proof fn lemma_line_splits(t: Seq<char>, v: Seq<char>)
    requires
        !has_separator(t),
        t.len() > 0,
        is_ascii_digit(t.last()),
    ensures
        sep_index_from(t + separator() + v, 0) == t.len(),
        (t + separator() + v).subrange(0, t.len() as int) == t,
        (t + separator() + v).subrange(t.len() as int + 3, (t + separator() + v).len() as int) == v,
{
    let s = t + separator() + v;
    assert forall|m: int| 0 <= m < t.len() implies !sep_at(s, m) by {
        if m + 3 <= t.len() {
            if sep_at(s, m) {
                assert(sep_at(t, m));
            }
        } else if m == t.len() - 1 {
            assert(s[m] == t.last());
        } else {
            assert(s[m + 1] == t.last());
        }
    }
    assert(sep_at(s, t.len() as int));
    lemma_sep_index(s, t.len() as int, 0);
    assert(s.subrange(0, t.len() as int) =~= t);
    assert(s.subrange(t.len() as int + 3, s.len() as int) =~= v);
}

fn strip_breaks(s: &str) -> (r: String)
    ensures
        r@ == strip_newlines(s@),
        no_newline(r@),
{
    let len = s.unicode_len();
    let mut out = String::new();
    let mut i: usize = 0;
    while i < len
        invariant
            len == s@.len(),
            i <= len,
            out@ == kept_prefix(s@, i as int),
            forall|k: int| 0 <= k < out@.len() ==> out@[k] != '\n',
        decreases len - i,
    {
        let c = s.get_char(i);
        let drop = c == '\n' || (c == '\r' && i + 1 < len && s.get_char(i + 1) == '\n');
        if !drop {
            out.append(s.substring_char(i, i + 1));
            assert(s@.subrange(i as int, i + 1) =~= seq![c]);
        }
        i += 1;
    }
    out
}

fn find_separator(s: &str) -> (r: Option<usize>)
    ensures
        match r {
            Some(i) => i as int == sep_index_from(s@, 0) && i + 3 <= s@.len(),
            None => sep_index_from(s@, 0) == -1,
        },
{
    let len = s.unicode_len();
    let mut i: usize = 0;
    while i < len && len - i >= 3
        invariant
            len == s@.len(),
            i <= len,
            sep_index_from(s@, 0) == sep_index_from(s@, i as int),
        decreases len - i,
    {
        if s.get_char(i) == ' ' && s.get_char(i + 1) == '-' && s.get_char(i + 2) == ' ' {
            return Some(i);
        }
        i += 1;
    }
    None
}

fn lacks_newline(s: &str) -> (r: bool)
    ensures
        r == no_newline(s@),
{
    let len = s.unicode_len();
    let mut i: usize = 0;
    while i < len
        invariant
            len == s@.len(),
            i <= len,
            forall|k: int| 0 <= k < i ==> s@[k] != '\n',
        decreases len - i,
    {
        if s.get_char(i) == '\n' {
            return false;
        }
        i += 1;
    }
    true
}

impl Note {
    pub open spec fn wf(&self) -> bool {
        self.timestamp.wf() && no_newline(self.note_value@)
    }

    /// A note of `body` taken at `record_time`; the newlines of `body` (and the
    /// carriage return of each `"\r\n"`) are dropped, so that the note fits on
    /// one log line.
    pub fn new(body: String, record_time: Timestamp) -> (r: Note)
        requires
            record_time.wf(),
        ensures
            r.timestamp == record_time,
            r.note_value@ == strip_newlines(body@),
            r.wf(),
    {
        Note { timestamp: record_time, note_value: strip_breaks(body.as_str()) }
    }

    /// A note of `body` taken now; `None` where the clock gives an instant that
    /// a `Timestamp` cannot hold.
    pub fn from_string(body: String) -> (r: Option<Note>)
        ensures
            r matches Some(n) ==> n.note_value@ == strip_newlines(body@) && n.wf(),
    {
        match Timestamp::now() {
            Some(t) => Some(Note::new(body, t)),
            None => None,
        }
    }

    /// The log line of this note, without its line terminator. Read back with
    /// `new_from_line`, it gives this note again.
    pub fn to_line(&self) -> (r: String)
        requires
            self.wf(),
        ensures
            r@ == note_line(self@),
            line_reading(r@) == Some(self@),
    {
        let mut line = self.timestamp.to_rfc2822();
        let ghost t = line@;
        proof {
            reveal_strlit(" - ");
        }
        line.append(" - ");
        line.append(self.note_value.as_str());
        proof {
            assert(" - "@ =~= separator());
            lemma_line_splits(t, self.note_value@);
        }
        line
    }

    /// Reads a log line; `None` where it is a corrupt record.
    pub fn new_from_line(line: &str) -> (r: Option<Note>)
        ensures
            r matches Some(n) ==> n.wf() && line_reading(line@) == Some(n@),
            r is None ==> line_reading(line@) is None,
    {
        match find_separator(line) {
            None => None,
            Some(i) => {
                let len = line.unicode_len();
                let stamp = line.substring_char(0, i);
                let value = line.substring_char(i + 3, len);
                match Timestamp::parse_rfc2822(stamp) {
                    None => None,
                    Some(t) => {
                        if lacks_newline(value) {
                            Some(Note { timestamp: t, note_value: String::from_str(value) })
                        } else {
                            None
                        }
                    },
                }
            },
        }
    }
}

pub open spec fn lines_view(lines: Seq<String>) -> Seq<Seq<char>> {
    lines.map_values(|l: String| l@)
}

pub open spec fn notes_view(notes: Seq<Note>) -> Seq<NoteView> {
    notes.map_values(|n: Note| n@)
}

/// The first position in `k..m` of a line that is not a note; `m` if none.
pub open spec fn first_unreadable(lines: Seq<Seq<char>>, k: int, m: int) -> int
    decreases m - k,
{
    if k < 0 || k >= m {
        m
    } else if line_reading(lines[k]) is None {
        k
    } else {
        first_unreadable(lines, k + 1, m)
    }
}

pub open spec fn min_len(n: int, len: int) -> int {
    if n < len {
        n
    } else {
        len
    }
}

/// The notes read from some lines, or the position of a corrupt record.
pub type Listing = Result<Seq<NoteView>, int>;

/// The notes of the first `n` lines of `lines` (all of them where there are
/// fewer), in the same order; or the position of the first of those lines that
/// is a corrupt record.
pub open spec fn listing(lines: Seq<Seq<char>>, n: int) -> Listing {
    let m = min_len(n, lines.len() as int);
    let c = first_unreadable(lines, 0, m);
    if c < m {
        Err(c)
    } else {
        Ok(Seq::new(m as nat, |k: int| line_reading(lines[k]).unwrap()))
    }
}

proof fn lemma_all_readable(lines: Seq<Seq<char>>, k: int, m: int)
    requires
        0 <= k <= m <= lines.len(),
        forall|i: int| k <= i < m ==> line_reading(#[trigger] lines[i]) is Some,
    ensures
        first_unreadable(lines, k, m) == m,
    decreases m - k,
{
    if k < m {
        lemma_all_readable(lines, k + 1, m);
    }
}

/// Reads the first `m` lines.
fn read_lines(lines: &Vec<String>, m: usize) -> (r: Result<Vec<Note>, CorruptRecord>)
    requires
        m <= lines.len(),
    ensures
        match r {
            Ok(v) => listing(lines_view(lines@), m as int) == Listing::Ok(notes_view(v@)) && forall|k: int|
                0 <= k < v.len() ==> #[trigger] v@[k].wf(),
            Err(e) => listing(lines_view(lines@), m as int) == Listing::Err(e.index as int),
        },
{
    let ghost lv = lines_view(lines@);
    let mut out: Vec<Note> = Vec::new();
    let mut i: usize = 0;
    while i < m
        invariant
            m <= lines.len(),
            lv == lines_view(lines@),
            i <= m,
            out.len() == i,
            first_unreadable(lv, 0, m as int) == first_unreadable(lv, i as int, m as int),
            forall|k: int| 0 <= k < i ==> #[trigger] out@[k].wf(),
            forall|k: int| 0 <= k < i ==> Some(#[trigger] out@[k]@) == line_reading(lv[k]),
        decreases m - i,
    {
        match Note::new_from_line(lines[i].as_str()) {
            None => {
                return Err(CorruptRecord { index: i });
            },
            Some(note) => {
                out.push(note);
            },
        }
        i += 1;
    }
    proof {
        assert(notes_view(out@) =~= Seq::new(m as nat, |k: int| line_reading(lv[k]).unwrap()));
    }
    Ok(out)
}

/// The notes of the `n` most recent lines, newest first. `lines` holds the
/// log's lines newest first, as a reverse line reader yields them; a corrupt
/// record among the lines read fails the whole listing.
pub fn list_recent(lines: &Vec<String>, n: u32) -> (r: Result<Vec<Note>, CorruptRecord>)
    ensures
        match r {
            Ok(v) => listing(lines_view(lines@), n as int) == Listing::Ok(notes_view(v@)) && forall|k: int|
                0 <= k < v.len() ==> #[trigger] v@[k].wf(),
            Err(e) => listing(lines_view(lines@), n as int) == Listing::Err(e.index as int),
        },
{
    let m: usize = if (n as usize) < lines.len() {
        n as usize
    } else {
        lines.len()
    };
    read_lines(lines, m)
}

/// Lines written in order, each read back as its note (as `Note::to_line`
/// ensures), and read from the end: listing as many notes as were written
/// gives all of them, the last written first.
pub proof fn law_recent_reverses_appends(written: Seq<Seq<char>>, notes: Seq<NoteView>)
    requires
        written.len() == notes.len(),
        forall|i: int| 0 <= i < written.len() ==> line_reading(#[trigger] written[i]) == Some(notes[i]),
    ensures
        listing(written.reverse(), notes.len() as int) == Listing::Ok(notes.reverse()),
{
    let rev = written.reverse();
    let len = written.len() as int;
    assert forall|i: int| 0 <= i < len implies line_reading(#[trigger] rev[i]) is Some by {
        assert(rev[i] == written[len - 1 - i]);
    }
    lemma_all_readable(rev, 0, len);
    assert(Seq::new(len as nat, |k: int| line_reading(rev[k]).unwrap()) =~= notes.reverse());
}

/// Asking for more notes than the log holds gives each of its notes once, in
/// the order of the lines, and no error where every line is a note.
pub proof fn law_recent_caps_at_total(lines: Seq<Seq<char>>, n: int)
    requires
        n >= lines.len(),
        forall|i: int| 0 <= i < lines.len() ==> line_reading(#[trigger] lines[i]) is Some,
    ensures
        listing(lines, n) matches Ok(v) && v.len() == lines.len() && forall|k: int|
            0 <= k < v.len() ==> Some(#[trigger] v[k]) == line_reading(lines[k]),
{
    lemma_all_readable(lines, 0, lines.len() as int);
}

/// The fuzzy scores of `term` against the texts of `notes`.
pub open spec fn match_scores(notes: Seq<NoteView>, term: Seq<char>) -> Seq<Option<int>> {
    notes.map_values(|x: NoteView| skim_score(x.1, term))
}

/// `v` is the answer to a search of `all` for `term` that keeps `n` notes:
/// the best `n` matching notes with their scores, the best first, equal
/// scores in log order.
pub open spec fn is_search_result(
    all: Seq<NoteView>,
    term: Seq<char>,
    n: int,
    v: Seq<(Note, i64)>,
) -> bool {
    exists|idx: Seq<int>|
        {
            &&& is_top_ranking(match_scores(all, term), n, idx)
            &&& v.len() == idx.len()
            &&& forall|k: int|
                0 <= k < v.len() ==> (#[trigger] v[k]).0@ == all[idx[k]] && match_scores(
                    all,
                    term,
                )[idx[k]] == Some(v[k].1 as int)
        }
}

/// Searches every line of the log for `term` and keeps the best `n` matches,
/// the best first; among equal scores the older note comes first. `lines`
/// holds the log's lines newest first. A corrupt record anywhere fails the
/// search. Every note returned holds the characters of `term` in order, up to
/// ASCII case, and the scores never rise along the result.
pub fn search(lines: &Vec<String>, term: &str, n: u32) -> (r: Result<Vec<(Note, i64)>, CorruptRecord>)
    ensures
        match r {
            Ok(v) => listing(lines_view(lines@), lines.len() as int) matches Ok(all)
                && is_search_result(all, term@, n as int, v@),
            Err(e) => listing(lines_view(lines@), lines.len() as int) == Listing::Err(e.index as int),
        },
        r matches Ok(v) ==> forall|k: int|
            0 <= k < v.len() ==> ci_subsequence(term@, (#[trigger] v@[k]).0.note_value@),
        r matches Ok(v) ==> forall|i: int, j: int| 0 <= i < j < v.len() ==> v@[i].1 >= v@[j].1,
{
    let all = match read_lines(lines, lines.len()) {
        Ok(all) => all,
        Err(e) => {
            return Err(e);
        },
    };
    let ghost av = notes_view(all@);
    let mut scores: Vec<Option<i64>> = Vec::new();
    let mut k: usize = 0;
    while k < all.len()
        invariant
            av == notes_view(all@),
            k <= all.len(),
            scores.len() == k,
            forall|i: int| 0 <= i < k ==> score_view(#[trigger] scores@[i]) == skim_score(av[i].1, term@),
            forall|i: int|
                0 <= i < k && (#[trigger] scores@[i]) is Some ==> ci_subsequence(term@, all@[i].note_value@),
        decreases all.len() - k,
    {
        scores.push(fuzzy_score(all[k].note_value.as_str(), term));
        k += 1;
    }
    let ghost sv = scores_view(scores@);
    assert(sv =~= match_scores(av, term@));
    let idx = rank_matches(&scores, n);
    let ghost iv = idx@.map_values(|i: usize| i as int);
    let mut out: Vec<(Note, i64)> = Vec::new();
    let mut k: usize = 0;
    while k < idx.len()
        invariant
            av == notes_view(all@),
            sv == scores_view(scores@),
            sv == match_scores(av, term@),
            scores.len() == all.len(),
            iv == idx@.map_values(|i: usize| i as int),
            is_top_ranking(sv, n as int, iv),
            forall|i: int|
                0 <= i < all.len() && (#[trigger] scores@[i]) is Some ==> ci_subsequence(term@, all@[i].note_value@),
            k <= idx.len(),
            out.len() == k,
            forall|i: int|
                0 <= i < k ==> (#[trigger] out@[i]).0@ == av[iv[i]] && sv[iv[i]] == Some(out@[i].1 as int),
            forall|i: int| 0 <= i < k ==> ci_subsequence(term@, (#[trigger] out@[i]).0.note_value@),
        decreases idx.len() - k,
    {
        let i = idx[k];
        assert(iv[k as int] == i as int);
        let score = scores[i].unwrap();
        out.push((all[i].clone(), score));
        k += 1;
    }
    proof {
        assert forall|a: int, b: int| 0 <= a < b < out.len() implies out@[a].1 >= out@[b].1 by {
            assert(ranks_before(sv, iv[a], iv[b]));
        }
        assert(listing(lines_view(lines@), lines.len() as int) == Listing::Ok(av));
    }
    Ok(out)
}

} // verus!
