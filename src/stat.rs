//! Reading a process's status line: whitespace-separated words, a command
//! name in parentheses that may itself hold spaces, and decimal numbers.
use vstd::prelude::*;
use vstd::string::{StrSliceExecFns, StringExecFns};

use crate::process::{state_is, Stat, State};

verus! {

/// The ASCII whitespace characters that separate words.
pub open spec fn is_space(c: char) -> bool {
    c == ' ' || c == '\t' || c == '\n' || c == '\r' || c == '\x0b' || c == '\x0c'
}

fn space(c: char) -> (r: bool)
    ensures
        r == is_space(c),
{
    c == ' ' || c == '\t' || c == '\n' || c == '\r' || c == '\x0b' || c == '\x0c'
}

/// The maximal runs of non-space characters of `s`, in order.
pub open spec fn words(s: Seq<char>) -> Seq<Seq<char>>
    decreases s.len(),
{
    if s.len() == 0 {
        Seq::empty()
    } else {
        let w = words(s.drop_last());
        if is_space(s.last()) {
            w
        } else if s.len() >= 2 && !is_space(s[s.len() - 2]) {
            w.update(w.len() - 1, w.last().push(s.last()))
        } else {
            w.push(seq![s.last()])
        }
    }
}

proof fn lemma_words_nonempty(s: Seq<char>)
    requires
        s.len() > 0,
        !is_space(s.last()),
    ensures
        words(s).len() > 0,
    decreases s.len(),
{
    if s.len() >= 2 && !is_space(s[s.len() - 2]) {
        lemma_words_nonempty(s.drop_last());
    }
}

/// `spans` are the start and end, within the first `bound` characters of
/// `s`, of the words `ws`.
pub open spec fn spans_of(s: Seq<char>, spans: Seq<(usize, usize)>, ws: Seq<Seq<char>>, bound: int) -> bool {
    &&& spans.len() == ws.len()
    &&& forall|k: int|
        0 <= k < spans.len() ==> (#[trigger] spans[k]).0 < spans[k].1 <= bound && s.subrange(
            spans[k].0 as int,
            spans[k].1 as int,
        ) == ws[k]
}

/// The word boundaries of `s`: each pair is the start and end of a word.
pub fn split_words(s: &str) -> (r: Vec<(usize, usize)>)
    ensures
        spans_of(s@, r@, words(s@), s@.len() as int),
{
    let n = s.unicode_len();
    let mut out: Vec<(usize, usize)> = Vec::new();
    let mut prev_word = false;
    let mut i: usize = 0;
    assert(s@.subrange(0, 0) =~= Seq::<char>::empty());
    while i < n
        invariant
            n == s@.len(),
            i <= n,
            spans_of(s@, out@, words(s@.subrange(0, i as int)), i as int),
            prev_word == (i > 0 && !is_space(s@[i - 1])),
            prev_word ==> out@.len() > 0 && out@.last().1 == i,
        decreases n - i,
    {
        let c = s.get_char(i);
        let ghost t = s@.subrange(0, i + 1);
        proof {
            assert(t.drop_last() =~= s@.subrange(0, i as int));
            assert(t.last() == c);
            if i > 0 {
                assert(t[t.len() - 2] == s@[i - 1]);
            }
        }
        let ghost before = out@;
        let ghost w = words(s@.subrange(0, i as int));

        if space(c) {
            prev_word = false;
            proof {
                assert(words(t) == w);
                assert forall|k: int| 0 <= k < out@.len() implies out@[k].0 < out@[k].1 <= i + 1
                    && s@.subrange(out@[k].0 as int, out@[k].1 as int) == words(t)[k] by {
                    assert(out@[k] == before[k]);
                }
            }
        } else if prev_word {
            proof {
                lemma_words_nonempty(s@.subrange(0, i as int));
            }
            let last = out.pop().unwrap();
            out.push((last.0, i + 1));
            proof {
                let m = before.len() - 1;
                assert(before[m].1 == i);
                assert(words(t) == w.update(w.len() - 1, w.last().push(c)));
                assert(s@.subrange(last.0 as int, i + 1) =~= w.last().push(c));
                assert forall|k: int| 0 <= k < out@.len() implies out@[k].0 < out@[k].1 <= i + 1
                    && s@.subrange(out@[k].0 as int, out@[k].1 as int) == words(t)[k] by {
                    if k < m {
                        assert(out@[k] == before[k]);
                    }
                }
            }
        } else {
            out.push((i, i + 1));
            prev_word = true;
            proof {
                assert(words(t) == w.push(seq![c]));
                assert(s@.subrange(i as int, i + 1) =~= seq![c]);
                assert forall|k: int| 0 <= k < out@.len() implies out@[k].0 < out@[k].1 <= i + 1
                    && s@.subrange(out@[k].0 as int, out@[k].1 as int) == words(t)[k] by {
                    if k < before.len() {
                        assert(out@[k] == before[k]);
                    }
                }
            }
        }
        i = i + 1;
    }
    assert(s@.subrange(0, n as int) =~= s@);
    assert(words(s@.subrange(0, n as int)) == words(s@));
    out
}

/// The value of a string of decimal digits.
pub open spec fn dec_val(w: Seq<char>) -> int
    decreases w.len(),
{
    if w.len() == 0 {
        0
    } else {
        dec_val(w.drop_last()) * 10 + (w.last() as int - '0' as int)
    }
}

pub open spec fn all_digits(w: Seq<char>) -> bool {
    forall|i: int| 0 <= i < w.len() ==> '0' <= #[trigger] w[i] <= '9'
}

/// The unsigned number a word spells: digits only, within `usize`.
pub open spec fn usize_of(w: Seq<char>) -> Option<usize> {
    if w.len() > 0 && all_digits(w) && dec_val(w) <= usize::MAX {
        Some(dec_val(w) as usize)
    } else {
        None
    }
}

/// The signed number a word spells: an optional `-`, then digits, within
/// `isize`.
pub open spec fn isize_of(w: Seq<char>) -> Option<isize> {
    if w.len() > 0 && w[0] == '-' {
        let d = w.drop_first();
        if d.len() > 0 && all_digits(d) && dec_val(d) <= -(isize::MIN as int) {
            Some((-dec_val(d)) as isize)
        } else {
            None
        }
    } else if w.len() > 0 && all_digits(w) && dec_val(w) <= isize::MAX {
        Some(dec_val(w) as isize)
    } else {
        None
    }
}

proof fn lemma_dec_nonneg(w: Seq<char>)
    requires
        all_digits(w),
    ensures
        dec_val(w) >= 0,
    decreases w.len(),
{
    if w.len() > 0 {
        lemma_dec_nonneg(w.drop_last());
    }
}

/// The value of the digits `s[a..b]`, saturated at `cap`, if all are digits.
fn digits_value(s: &str, a: usize, b: usize, cap: u128) -> (r: Option<u128>)
    requires
        a <= b <= s@.len(),
        cap <= 0x1_0000_0000_0000_0000,
    ensures
        all_digits(s@.subrange(a as int, b as int)) ==> r == Some(
            (if dec_val(s@.subrange(a as int, b as int)) < cap {
                dec_val(s@.subrange(a as int, b as int))
            } else {
                cap as int
            }) as u128,
        ),
        !all_digits(s@.subrange(a as int, b as int)) ==> r is None,
{
    let mut v: u128 = 0;
    let mut i = a;
    assert(s@.subrange(a as int, a as int) =~= Seq::<char>::empty());
    while i < b
        invariant
            a <= i <= b <= s@.len(),
            cap <= 0x1_0000_0000_0000_0000,
            all_digits(s@.subrange(a as int, i as int)),
            v as int == (if dec_val(s@.subrange(a as int, i as int)) < cap {
                dec_val(s@.subrange(a as int, i as int))
            } else {
                cap as int
            }),
        decreases b - i,
    {
        let c = s.get_char(i);
        let ghost p = s@.subrange(a as int, i as int);
        let ghost q = s@.subrange(a as int, i + 1);
        proof {
            assert(q.drop_last() =~= p);
            assert(q.last() == c);
        }
        if c < '0' || c > '9' {
            proof {
                assert(s@.subrange(a as int, b as int)[i - a] == c);
            }
            return None;
        }
        let d = (c as u32 - '0' as u32) as u128;
        proof {
            lemma_dec_nonneg(p);
            assert(all_digits(q)) by {
                assert forall|j: int| 0 <= j < q.len() implies '0' <= #[trigger] q[j] <= '9' by {
                    if j < p.len() {
                        assert(q[j] == p[j]);
                    }
                }
            }
            let x = dec_val(p);
            assert(0 <= d <= 9);
            assert((if x < cap {
                x
            } else {
                cap as int
            }) * 10 + d >= cap <==> x * 10 + d >= cap) by (nonlinear_arith)
                requires
                    x >= 0,
                    0 <= d <= 9,
                    cap >= 0,
            ;
        }
        if v >= cap || v * 10 + d >= cap {
            v = cap;
        } else {
            v = v * 10 + d;
        }
        i = i + 1;
    }
    Some(v)
}

/// Reads the unsigned number spelled by `s[a..b]`.
pub fn parse_usize(s: &str, a: usize, b: usize) -> (r: Option<usize>)
    requires
        a <= b <= s@.len(),
    ensures
        r == usize_of(s@.subrange(a as int, b as int)),
{
    if a == b {
        return None;
    }
    let ghost w = s@.subrange(a as int, b as int);
    match digits_value(s, a, b, usize::MAX as u128 + 1) {
        Some(v) => {
            proof {
                lemma_dec_nonneg(w);
            }
            if v <= usize::MAX as u128 {
                Some(v as usize)
            } else {
                None
            }
        },
        None => None,
    }
}

/// Reads the signed number spelled by `s[a..b]`.
pub fn parse_isize(s: &str, a: usize, b: usize) -> (r: Option<isize>)
    requires
        a <= b <= s@.len(),
    ensures
        r == isize_of(s@.subrange(a as int, b as int)),
{
    if a == b {
        return None;
    }
    let ghost w = s@.subrange(a as int, b as int);
    proof {
        if all_digits(w) {
            lemma_dec_nonneg(w);
        }
        if all_digits(s@.subrange(a + 1, b as int)) {
            lemma_dec_nonneg(s@.subrange(a + 1, b as int));
        }
    }
    if s.get_char(a) == '-' {
        assert(w.drop_first() =~= s@.subrange(a + 1, b as int));
        if a + 1 == b {
            return None;
        }
        match digits_value(s, a + 1, b, isize::MAX as u128 + 2) {
            Some(v) => {
                if v <= isize::MAX as u128 + 1 {
                    Some((0 - v as i128) as isize)
                } else {
                    None
                }
            },
            None => None,
        }
    } else {
        match digits_value(s, a, b, isize::MAX as u128 + 1) {
            Some(v) => {
                if v <= isize::MAX as u128 {
                    Some(v as isize)
                } else {
                    None
                }
            },
            None => None,
        }
    }
}

} // verus!

verus! {

/// Why a status line could not be read.
#[derive(Clone, Copy, Debug, PartialEq, Eq, Structural)]
pub enum StatError {
    Malformed,
}

/// Whether a word closes a parenthesised command name.
pub open spec fn closes_name(w: Seq<char>) -> bool {
    w.len() > 0 && (w.last() == ')' || w.last() == ']')
}

/// Index of the first word at or after `j` that closes the name, or -1.
pub open spec fn close_from(ws: Seq<Seq<char>>, j: int) -> int
    decreases ws.len() - j,
{
    if j < 0 || j >= ws.len() {
        -1
    } else if closes_name(ws[j]) {
        j
    } else {
        close_from(ws, j + 1)
    }
}

/// Index of the last word of the command name, which starts at word 1:
/// when that word opens a parenthesis it does not close, the name runs on
/// to the first later word ending in `)` or `]`; -1 when none does.
pub open spec fn name_last(ws: Seq<Seq<char>>) -> int {
    if ws[1].len() > 0 && ws[1][0] == '(' && !(ws[1].last() == ')') {
        close_from(ws, 2)
    } else {
        1
    }
}

/// Words `a..=b` joined by single spaces.
pub open spec fn joined(ws: Seq<Seq<char>>, a: int, b: int) -> Seq<char>
    decreases b - a,
{
    if b <= a {
        ws[a]
    } else {
        joined(ws, a, b - 1) + seq![' '] + ws[b]
    }
}

/// The command name: the name's words joined, without the enclosing
/// first and last characters.
pub open spec fn name_of(ws: Seq<Seq<char>>) -> Seq<char> {
    let j = joined(ws, 1, name_last(ws));
    j.subrange(1, j.len() - 1)
}

/// Whether a status line can be read: a pid, a command name of two
/// characters or more, a state and the 49 numeric fields after it.
pub open spec fn stat_ok(s: Seq<char>) -> bool {
    let ws = words(s);
    let b = name_last(ws) + 1;
    &&& ws.len() >= 2
    &&& usize_of(ws[0]) is Some
    &&& name_last(ws) >= 1
    &&& joined(ws, 1, name_last(ws)).len() >= 2
    &&& ws.len() >= b + 50
    &&& usize_of(ws[b + 1]) is Some
    &&& usize_of(ws[b + 2]) is Some
    &&& usize_of(ws[b + 3]) is Some
    &&& usize_of(ws[b + 4]) is Some
    &&& isize_of(ws[b + 5]) is Some
    &&& usize_of(ws[b + 6]) is Some
    &&& usize_of(ws[b + 7]) is Some
    &&& usize_of(ws[b + 8]) is Some
    &&& usize_of(ws[b + 9]) is Some
    &&& usize_of(ws[b + 10]) is Some
    &&& usize_of(ws[b + 11]) is Some
    &&& usize_of(ws[b + 12]) is Some
    &&& usize_of(ws[b + 13]) is Some
    &&& usize_of(ws[b + 14]) is Some
    &&& isize_of(ws[b + 15]) is Some
    &&& isize_of(ws[b + 16]) is Some
    &&& usize_of(ws[b + 17]) is Some
    &&& usize_of(ws[b + 19]) is Some
    &&& usize_of(ws[b + 20]) is Some
    &&& usize_of(ws[b + 21]) is Some
    &&& usize_of(ws[b + 22]) is Some
    &&& usize_of(ws[b + 23]) is Some
    &&& usize_of(ws[b + 24]) is Some
    &&& usize_of(ws[b + 25]) is Some
    &&& usize_of(ws[b + 26]) is Some
    &&& usize_of(ws[b + 27]) is Some
    &&& usize_of(ws[b + 28]) is Some
    &&& usize_of(ws[b + 29]) is Some
    &&& usize_of(ws[b + 30]) is Some
    &&& usize_of(ws[b + 31]) is Some
    &&& usize_of(ws[b + 35]) is Some
    &&& usize_of(ws[b + 36]) is Some
    &&& usize_of(ws[b + 37]) is Some
    &&& usize_of(ws[b + 38]) is Some
    &&& usize_of(ws[b + 39]) is Some
    &&& usize_of(ws[b + 40]) is Some
    &&& usize_of(ws[b + 41]) is Some
    &&& usize_of(ws[b + 42]) is Some
    &&& usize_of(ws[b + 43]) is Some
    &&& usize_of(ws[b + 44]) is Some
    &&& usize_of(ws[b + 45]) is Some
    &&& usize_of(ws[b + 46]) is Some
    &&& usize_of(ws[b + 47]) is Some
    &&& usize_of(ws[b + 48]) is Some
    &&& usize_of(ws[b + 49]) is Some
}

proof fn lemma_close_from(ws: Seq<Seq<char>>, j: int)
    requires
        0 <= j,
    ensures
        close_from(ws, j) == -1 || (j <= close_from(ws, j) < ws.len() && closes_name(
            ws[close_from(ws, j)],
        )),
        close_from(ws, j) == -1 ==> forall|i: int| j <= i < ws.len() ==> !closes_name(ws[i]),
        close_from(ws, j) != -1 ==> forall|i: int|
            j <= i < close_from(ws, j) ==> !closes_name(ws[i]),
    decreases ws.len() - j,
{
    if j < ws.len() && !closes_name(ws[j]) {
        lemma_close_from(ws, j + 1);
    }
}

fn closes(s: &str, a: usize, b: usize) -> (r: bool)
    requires
        a <= b <= s@.len(),
    ensures
        r == closes_name(s@.subrange(a as int, b as int)),
{
    if a == b {
        return false;
    }
    let c = s.get_char(b - 1);
    c == ')' || c == ']'
}

impl Stat {
    /// Reads a process's status line.
    pub fn from_str(s: &str) -> (r: Result<Stat, StatError>)
        ensures
            r is Ok <==> stat_ok(s@),
            r is Ok ==> ({
                let ws = words(s@);
                let b = name_last(ws) + 1;
                &&& r->Ok_0.process_id == usize_of(ws[0])->0
                &&& r->Ok_0.filename@ == name_of(ws)
                &&& state_is(r->Ok_0.state, ws[b])
                &&&                 r->Ok_0.parent_process_id == usize_of(ws[b + 1])->0
                &&&                 r->Ok_0.process_group == usize_of(ws[b + 2])->0
                &&&                 r->Ok_0.session_id == usize_of(ws[b + 3])->0
                &&&                 r->Ok_0.tty_number == usize_of(ws[b + 4])->0
                &&&                 r->Ok_0.tty_process_group == isize_of(ws[b + 5])->0
                &&&                 r->Ok_0.flags == usize_of(ws[b + 6])->0
                &&&                 r->Ok_0.minor_faults == usize_of(ws[b + 7])->0
                &&&                 r->Ok_0.minor_faults_children == usize_of(ws[b + 8])->0
                &&&                 r->Ok_0.major_faults == usize_of(ws[b + 9])->0
                &&&                 r->Ok_0.major_faults_children == usize_of(ws[b + 10])->0
                &&&                 r->Ok_0.user_time == usize_of(ws[b + 11])->0
                &&&                 r->Ok_0.user_time_children == usize_of(ws[b + 12])->0
                &&&                 r->Ok_0.kernel_time == usize_of(ws[b + 13])->0
                &&&                 r->Ok_0.kernel_time_children == usize_of(ws[b + 14])->0
                &&&                 r->Ok_0.priority == isize_of(ws[b + 15])->0
                &&&                 r->Ok_0.nice == isize_of(ws[b + 16])->0
                &&&                 r->Ok_0.num_threads == usize_of(ws[b + 17])->0
                &&&                 r->Ok_0.start_time == usize_of(ws[b + 19])->0
                &&&                 r->Ok_0.virtual_memory_size == usize_of(ws[b + 20])->0
                &&&                 r->Ok_0.resident_set_memory_size == usize_of(ws[b + 21])->0
                &&&                 r->Ok_0.resident_set_memory_limit == usize_of(ws[b + 22])->0
                &&&                 r->Ok_0.start_code == usize_of(ws[b + 23])->0
                &&&                 r->Ok_0.end_code == usize_of(ws[b + 24])->0
                &&&                 r->Ok_0.start_stack == usize_of(ws[b + 25])->0
                &&&                 r->Ok_0.esp == usize_of(ws[b + 26])->0
                &&&                 r->Ok_0.eip == usize_of(ws[b + 27])->0
                &&&                 r->Ok_0.pending_signals == usize_of(ws[b + 28])->0
                &&&                 r->Ok_0.blocked_signals == usize_of(ws[b + 29])->0
                &&&                 r->Ok_0.ignored_signals == usize_of(ws[b + 30])->0
                &&&                 r->Ok_0.caught_signals == usize_of(ws[b + 31])->0
                &&&                 r->Ok_0.exit_signal == usize_of(ws[b + 35])->0
                &&&                 r->Ok_0.task_cpu == usize_of(ws[b + 36])->0
                &&&                 r->Ok_0.realtime_priority == usize_of(ws[b + 37])->0
                &&&                 r->Ok_0.scheduling_policy == usize_of(ws[b + 38])->0
                &&&                 r->Ok_0.block_io_ticks == usize_of(ws[b + 39])->0
                &&&                 r->Ok_0.guest_time == usize_of(ws[b + 40])->0
                &&&                 r->Ok_0.guest_time_children == usize_of(ws[b + 41])->0
                &&&                 r->Ok_0.start_data == usize_of(ws[b + 42])->0
                &&&                 r->Ok_0.end_data == usize_of(ws[b + 43])->0
                &&&                 r->Ok_0.start_brk == usize_of(ws[b + 44])->0
                &&&                 r->Ok_0.arg_start == usize_of(ws[b + 45])->0
                &&&                 r->Ok_0.arg_end == usize_of(ws[b + 46])->0
                &&&                 r->Ok_0.env_start == usize_of(ws[b + 47])->0
                &&&                 r->Ok_0.env_end == usize_of(ws[b + 48])->0
                &&&                 r->Ok_0.exit_code == usize_of(ws[b + 49])->0
            }),
    {
        let spans = split_words(s);
        let ghost ws = words(s@);
        if spans.len() < 2 {
            return Err(StatError::Malformed);
        }
        let process_id = match parse_usize(s, spans[0].0, spans[0].1) {
            Some(v) => v,
            None => return Err(StatError::Malformed),
        };
        let first = s.substring_char(spans[1].0, spans[1].1);
        let mut name = String::from_str(first);
        let mut last: usize = 1;
        let n1 = first.unicode_len();
        proof {
            assert(first@ == ws[1]);
            assert(joined(ws, 1, 1) == ws[1]);
        }
        if n1 > 0 && first.get_char(0) == '(' && first.get_char(n1 - 1) != ')' {
            let mut j: usize = 2;
            let mut found = false;
            proof {
                lemma_close_from(ws, 2);
            }
            proof {
                reveal_strlit(" ");
                assert(" "@ =~= seq![' ']);
            }
            while j < spans.len() && !found
                invariant
                    spans_of(s@, spans@, ws, s@.len() as int),
                    ws == words(s@),
                    " "@ == seq![' '],
                    2 <= j <= spans@.len(),
                    !found ==> close_from(ws, 2) == close_from(ws, j as int) && name@ == joined(
                        ws,
                        1,
                        (j - 1) as int,
                    ),
                    found ==> last >= 2 && last == close_from(ws, 2) && name@ == joined(
                        ws,
                        1,
                        last as int,
                    ),
                decreases spans@.len() - j, (if found {
                    0int
                } else {
                    1int
                }),
            {
                let w = s.substring_char(spans[j].0, spans[j].1);
                name = name.concat(" ").concat(w);
                proof {
                    assert(w@ == ws[j as int]);
                    assert(name@ =~= joined(ws, 1, j as int));
                }
                if closes(s, spans[j].0, spans[j].1) {
                    last = j;
                    found = true;
                } else {
                    j = j + 1;
                }
            }
            if !found {
                return Err(StatError::Malformed);
            }
        }
        let ghost nl = name_last(ws);
        assert(last == nl);
        let nn = name.as_str().unicode_len();
        if nn < 2 {
            return Err(StatError::Malformed);
        }
        let filename = String::from_str(name.as_str().substring_char(1, nn - 1));
        if spans.len() - last < 51 {
            return Err(StatError::Malformed);
        }
        let base = last + 1;
        let state = State::parse(s.substring_char(spans[base].0, spans[base].1));
        let parent_process_id = match parse_usize(s, spans[base + 1].0, spans[base + 1].1) {
            Some(v) => v,
            None => return Err(StatError::Malformed),
        };
        let process_group = match parse_usize(s, spans[base + 2].0, spans[base + 2].1) {
            Some(v) => v,
            None => return Err(StatError::Malformed),
        };
        let session_id = match parse_usize(s, spans[base + 3].0, spans[base + 3].1) {
            Some(v) => v,
            None => return Err(StatError::Malformed),
        };
        let tty_number = match parse_usize(s, spans[base + 4].0, spans[base + 4].1) {
            Some(v) => v,
            None => return Err(StatError::Malformed),
        };
        let tty_process_group = match parse_isize(s, spans[base + 5].0, spans[base + 5].1) {
            Some(v) => v,
            None => return Err(StatError::Malformed),
        };
        let flags = match parse_usize(s, spans[base + 6].0, spans[base + 6].1) {
            Some(v) => v,
            None => return Err(StatError::Malformed),
        };
        let minor_faults = match parse_usize(s, spans[base + 7].0, spans[base + 7].1) {
            Some(v) => v,
            None => return Err(StatError::Malformed),
        };
        let minor_faults_children = match parse_usize(s, spans[base + 8].0, spans[base + 8].1) {
            Some(v) => v,
            None => return Err(StatError::Malformed),
        };
        let major_faults = match parse_usize(s, spans[base + 9].0, spans[base + 9].1) {
            Some(v) => v,
            None => return Err(StatError::Malformed),
        };
        let major_faults_children = match parse_usize(s, spans[base + 10].0, spans[base + 10].1) {
            Some(v) => v,
            None => return Err(StatError::Malformed),
        };
        let user_time = match parse_usize(s, spans[base + 11].0, spans[base + 11].1) {
            Some(v) => v,
            None => return Err(StatError::Malformed),
        };
        let user_time_children = match parse_usize(s, spans[base + 12].0, spans[base + 12].1) {
            Some(v) => v,
            None => return Err(StatError::Malformed),
        };
        let kernel_time = match parse_usize(s, spans[base + 13].0, spans[base + 13].1) {
            Some(v) => v,
            None => return Err(StatError::Malformed),
        };
        let kernel_time_children = match parse_usize(s, spans[base + 14].0, spans[base + 14].1) {
            Some(v) => v,
            None => return Err(StatError::Malformed),
        };
        let priority = match parse_isize(s, spans[base + 15].0, spans[base + 15].1) {
            Some(v) => v,
            None => return Err(StatError::Malformed),
        };
        let nice = match parse_isize(s, spans[base + 16].0, spans[base + 16].1) {
            Some(v) => v,
            None => return Err(StatError::Malformed),
        };
        let num_threads = match parse_usize(s, spans[base + 17].0, spans[base + 17].1) {
            Some(v) => v,
            None => return Err(StatError::Malformed),
        };
        let start_time = match parse_usize(s, spans[base + 19].0, spans[base + 19].1) {
            Some(v) => v,
            None => return Err(StatError::Malformed),
        };
        let virtual_memory_size = match parse_usize(s, spans[base + 20].0, spans[base + 20].1) {
            Some(v) => v,
            None => return Err(StatError::Malformed),
        };
        let resident_set_memory_size = match parse_usize(s, spans[base + 21].0, spans[base + 21].1) {
            Some(v) => v,
            None => return Err(StatError::Malformed),
        };
        let resident_set_memory_limit = match parse_usize(s, spans[base + 22].0, spans[base + 22].1) {
            Some(v) => v,
            None => return Err(StatError::Malformed),
        };
        let start_code = match parse_usize(s, spans[base + 23].0, spans[base + 23].1) {
            Some(v) => v,
            None => return Err(StatError::Malformed),
        };
        let end_code = match parse_usize(s, spans[base + 24].0, spans[base + 24].1) {
            Some(v) => v,
            None => return Err(StatError::Malformed),
        };
        let start_stack = match parse_usize(s, spans[base + 25].0, spans[base + 25].1) {
            Some(v) => v,
            None => return Err(StatError::Malformed),
        };
        let esp = match parse_usize(s, spans[base + 26].0, spans[base + 26].1) {
            Some(v) => v,
            None => return Err(StatError::Malformed),
        };
        let eip = match parse_usize(s, spans[base + 27].0, spans[base + 27].1) {
            Some(v) => v,
            None => return Err(StatError::Malformed),
        };
        let pending_signals = match parse_usize(s, spans[base + 28].0, spans[base + 28].1) {
            Some(v) => v,
            None => return Err(StatError::Malformed),
        };
        let blocked_signals = match parse_usize(s, spans[base + 29].0, spans[base + 29].1) {
            Some(v) => v,
            None => return Err(StatError::Malformed),
        };
        let ignored_signals = match parse_usize(s, spans[base + 30].0, spans[base + 30].1) {
            Some(v) => v,
            None => return Err(StatError::Malformed),
        };
        let caught_signals = match parse_usize(s, spans[base + 31].0, spans[base + 31].1) {
            Some(v) => v,
            None => return Err(StatError::Malformed),
        };
        let exit_signal = match parse_usize(s, spans[base + 35].0, spans[base + 35].1) {
            Some(v) => v,
            None => return Err(StatError::Malformed),
        };
        let task_cpu = match parse_usize(s, spans[base + 36].0, spans[base + 36].1) {
            Some(v) => v,
            None => return Err(StatError::Malformed),
        };
        let realtime_priority = match parse_usize(s, spans[base + 37].0, spans[base + 37].1) {
            Some(v) => v,
            None => return Err(StatError::Malformed),
        };
        let scheduling_policy = match parse_usize(s, spans[base + 38].0, spans[base + 38].1) {
            Some(v) => v,
            None => return Err(StatError::Malformed),
        };
        let block_io_ticks = match parse_usize(s, spans[base + 39].0, spans[base + 39].1) {
            Some(v) => v,
            None => return Err(StatError::Malformed),
        };
        let guest_time = match parse_usize(s, spans[base + 40].0, spans[base + 40].1) {
            Some(v) => v,
            None => return Err(StatError::Malformed),
        };
        let guest_time_children = match parse_usize(s, spans[base + 41].0, spans[base + 41].1) {
            Some(v) => v,
            None => return Err(StatError::Malformed),
        };
        let start_data = match parse_usize(s, spans[base + 42].0, spans[base + 42].1) {
            Some(v) => v,
            None => return Err(StatError::Malformed),
        };
        let end_data = match parse_usize(s, spans[base + 43].0, spans[base + 43].1) {
            Some(v) => v,
            None => return Err(StatError::Malformed),
        };
        let start_brk = match parse_usize(s, spans[base + 44].0, spans[base + 44].1) {
            Some(v) => v,
            None => return Err(StatError::Malformed),
        };
        let arg_start = match parse_usize(s, spans[base + 45].0, spans[base + 45].1) {
            Some(v) => v,
            None => return Err(StatError::Malformed),
        };
        let arg_end = match parse_usize(s, spans[base + 46].0, spans[base + 46].1) {
            Some(v) => v,
            None => return Err(StatError::Malformed),
        };
        let env_start = match parse_usize(s, spans[base + 47].0, spans[base + 47].1) {
            Some(v) => v,
            None => return Err(StatError::Malformed),
        };
        let env_end = match parse_usize(s, spans[base + 48].0, spans[base + 48].1) {
            Some(v) => v,
            None => return Err(StatError::Malformed),
        };
        let exit_code = match parse_usize(s, spans[base + 49].0, spans[base + 49].1) {
            Some(v) => v,
            None => return Err(StatError::Malformed),
        };
        Ok(Stat {
            process_id,
            filename,
            state,
            parent_process_id,
            process_group,
            session_id,
            tty_number,
            tty_process_group,
            flags,
            minor_faults,
            minor_faults_children,
            major_faults,
            major_faults_children,
            user_time,
            user_time_children,
            kernel_time,
            kernel_time_children,
            priority,
            nice,
            num_threads,
            it_real_value: (),
            start_time,
            virtual_memory_size,
            resident_set_memory_size,
            resident_set_memory_limit,
            start_code,
            end_code,
            start_stack,
            esp,
            eip,
            pending_signals,
            blocked_signals,
            ignored_signals,
            caught_signals,
            placeholder_0: (),
            placeholder_1: (),
            placeholder_2: (),
            exit_signal,
            task_cpu,
            realtime_priority,
            scheduling_policy,
            block_io_ticks,
            guest_time,
            guest_time_children,
            start_data,
            end_data,
            start_brk,
            arg_start,
            arg_end,
            env_start,
            env_end,
            exit_code,
        })
    }
}

} // verus!
