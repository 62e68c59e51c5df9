//! Listing parser: converts the raw response of a "list all messages"
//! command into discrete message entries.
//!
//! Each message is introduced by a header line starting with `+CMGL:` that
//! carries a comma-separated field list — slot index, status, and a quoted
//! sender address among others — followed by zero or more raw body lines
//! that continue until the next header line or end of input.  Blank lines
//! and a trailing `OK` status line are tolerated and never treated as body
//! content.  Multi-line bodies are joined by a single newline.  A header
//! whose index field does not parse as a decimal integer is rejected: the
//! entry it introduces is skipped entirely.

use vstd::prelude::*;
use crate::strutil::string_from_chars;
use crate::strutil::chars_of;
use crate::text::trimmed;
use crate::text::trim_chars;

verus! {

/// One decoded mailbox slot: ordinal slot index, sender address, and body
/// text (possibly still hex-encoded).
pub struct SmsEntry {
    pub index: u32,
    pub number: String,
    pub body: String,
}

/// Mathematical model of an [`SmsEntry`].
pub ghost struct EntryModel {
    pub index: u32,
    pub number: Seq<char>,
    pub body: Seq<char>,
}

impl View for SmsEntry {
    type V = EntryModel;

    open spec fn view(&self) -> EntryModel {
        EntryModel { index: self.index, number: self.number@, body: self.body@ }
    }
}

/// The views of a sequence of character vectors.
pub open spec fn views_of(vs: Seq<Vec<char>>) -> Seq<Seq<char>> {
    vs.map_values(|v: Vec<char>| v@)
}

/// The models of a sequence of entries.
pub open spec fn models_of(es: Seq<SmsEntry>) -> Seq<EntryModel> {
    es.map_values(|e: SmsEntry| e@)
}

/// Split `s` on `sep`; the result always holds at least one (possibly
/// empty) segment, and one more segment per separator occurrence.
pub open spec fn split_sep(s: Seq<char>, sep: char) -> Seq<Seq<char>>
    decreases s.len(),
{
    if s.len() == 0 {
        seq![Seq::<char>::empty()]
    } else {
        let r = split_sep(s.drop_last(), sep);
        if s.last() == sep {
            r.push(Seq::<char>::empty())
        } else {
            r.update(r.len() - 1, r.last().push(s.last()))
        }
    }
}

proof fn lemma_split_sep_len(s: Seq<char>, sep: char)
    ensures
        split_sep(s, sep).len() >= 1,
    decreases s.len(),
{
    if s.len() > 0 {
        lemma_split_sep_len(s.drop_last(), sep);
    }
}

proof fn lemma_views_push(vs: Seq<Vec<char>>, v: Vec<char>)
    ensures
        views_of(vs.push(v)) =~= views_of(vs).push(v@),
{
}

proof fn lemma_models_push(es: Seq<SmsEntry>, e: SmsEntry)
    ensures
        models_of(es.push(e)) =~= models_of(es).push(e@),
{
}

/// The `+CMGL:` marker that introduces a header line.
pub open spec fn header_prefix() -> Seq<char> {
    seq!['+', 'C', 'M', 'G', 'L', ':']
}

/// A (trimmed) line that introduces a message entry.
pub open spec fn is_header_line(l: Seq<char>) -> bool {
    l.len() >= 6 && l.subrange(0, 6) == header_prefix()
}

/// A (trimmed) line that is the modem's terminal `OK` status.
pub open spec fn is_ok_line(l: Seq<char>) -> bool {
    l.len() == 2 && (l[0] == 'O' || l[0] == 'o') && (l[1] == 'K' || l[1] == 'k')
}

/// Decimal digit.
pub open spec fn is_dec_digit(c: char) -> bool {
    '0' <= c && c <= '9'
}

/// Value of a decimal digit string.
pub open spec fn dec_value(s: Seq<char>) -> int
    decreases s.len(),
{
    if s.len() == 0 {
        0
    } else {
        dec_value(s.drop_last()) * 10 + (s.last() as int - '0' as int)
    }
}

/// The string is a non-empty run of decimal digits whose value fits `u32`.
pub open spec fn dec_valid_u32(s: Seq<char>) -> bool {
    &&& s.len() > 0
    &&& forall|i: int| 0 <= i < s.len() ==> is_dec_digit(#[trigger] s[i])
    &&& dec_value(s) <= u32::MAX
}

/// Double quote, stripped from around the sender address field.
pub open spec fn is_quote(c: char) -> bool {
    c == '"'
}

/// `s` without leading quote characters.
pub open spec fn quote_trim_front(s: Seq<char>) -> Seq<char>
    decreases s.len(),
{
    if s.len() > 0 && is_quote(s[0]) {
        quote_trim_front(s.drop_first())
    } else {
        s
    }
}

/// `s` without trailing quote characters.
pub open spec fn quote_trim_back(s: Seq<char>) -> Seq<char>
    decreases s.len(),
{
    if s.len() > 0 && is_quote(s[s.len() - 1]) {
        quote_trim_back(s.drop_last())
    } else {
        s
    }
}

/// `s` without leading and trailing quote characters.
pub open spec fn quote_trimmed(s: Seq<char>) -> Seq<char> {
    quote_trim_back(quote_trim_front(s))
}

/// The comma-separated fields of a header line, each trimmed.
pub open spec fn header_parts(l: Seq<char>) -> Seq<Seq<char>>
    recommends
        is_header_line(l),
{
    split_sep(l.subrange(6, l.len() as int), ',').map_values(|p: Seq<char>| trimmed(p))
}

/// Entry under construction while its body lines are collected.
pub ghost struct CurModel {
    pub index: u32,
    pub number: Seq<char>,
    pub body: Seq<char>,
}

/// Parser state after some prefix of the lines.
pub ghost struct ParseState {
    pub done: Seq<EntryModel>,
    pub cur: Option<CurModel>,
}

/// Finished entries, with the entry under construction finalized.
pub open spec fn flush(st: ParseState) -> Seq<EntryModel> {
    match st.cur {
        Some(c) => st.done.push(EntryModel { index: c.index, number: c.number, body: c.body }),
        None => st.done,
    }
}

/// One parsing step: classify a raw line and update the state.
pub open spec fn step_line(st: ParseState, raw: Seq<char>) -> ParseState {
    let l = trimmed(raw);
    if is_header_line(l) {
        let parts = header_parts(l);
        if dec_valid_u32(parts[0]) {
            ParseState {
                done: flush(st),
                cur: Some(CurModel {
                    index: dec_value(parts[0]) as u32,
                    number: if parts.len() >= 3 { quote_trimmed(parts[2]) } else { Seq::empty() },
                    body: Seq::empty(),
                }),
            }
        } else {
            ParseState { done: flush(st), cur: None }
        }
    } else if st.cur is Some && l.len() > 0 && !is_ok_line(l) {
        let c = st.cur->0;
        ParseState {
            done: st.done,
            cur: Some(CurModel {
                index: c.index,
                number: c.number,
                body: if c.body.len() > 0 { c.body + seq!['\n'] + l } else { l },
            }),
        }
    } else {
        st
    }
}

/// The parser state after all the given lines.
pub open spec fn fold_lines(ls: Seq<Seq<char>>) -> ParseState
    decreases ls.len(),
{
    if ls.len() == 0 {
        ParseState { done: Seq::empty(), cur: None }
    } else {
        step_line(fold_lines(ls.drop_last()), ls.last())
    }
}

/// The entries listed in a raw listing response.
pub open spec fn parse_cmgl_spec(s: Seq<char>) -> Seq<EntryModel> {
    flush(fold_lines(split_sep(s, '\n')))
}

fn split_sep_exec(s: &Vec<char>, sep: char) -> (r: Vec<Vec<char>>)
    ensures
        views_of(r@) == split_sep(s@, sep),
        r@.len() >= 1,
{
    let n = s.len();
    let mut acc: Vec<Vec<char>> = Vec::new();
    let mut cur: Vec<char> = Vec::new();
    let mut i: usize = 0;
    while i < n
        invariant
            i <= n,
            n == s@.len(),
            views_of(acc@).push(cur@) == split_sep(s@.take(i as int), sep),
        decreases n - i,
    {
        let ghost prev = split_sep(s@.take(i as int), sep);
        let c = s[i];
        assert(s@.take(i + 1).drop_last() =~= s@.take(i as int));
        assert(s@.take(i + 1).last() == c);
        if c == sep {
            acc.push(cur);
            cur = Vec::new();
            assert(views_of(acc@).push(cur@) =~= prev.push(Seq::<char>::empty()));
        } else {
            cur.push(c);
            proof {
                assert(prev.len() >= 1) by {
                    lemma_split_sep_len(s@.take(i as int), sep);
                }
                assert(views_of(acc@).push(cur@) =~= prev.update(prev.len() - 1, prev.last().push(c)));
            }
        }
        i = i + 1;
    }
    assert(s@.take(n as int) =~= s@);
    acc.push(cur);
    proof {
        lemma_split_sep_len(s@, sep);
    }
    assert(views_of(acc@) =~= split_sep(s@, sep));
    acc
}

proof fn lemma_quote_trim_front_at(s: Seq<char>, lo: int)
    requires
        0 <= lo <= s.len(),
        forall|k: int| 0 <= k < lo ==> is_quote(#[trigger] s[k]),
        lo == s.len() || !is_quote(s[lo]),
    ensures
        quote_trim_front(s) == s.subrange(lo, s.len() as int),
    decreases lo,
{
    if lo == 0 {
        assert(s.subrange(0, s.len() as int) =~= s);
    } else {
        let s2 = s.drop_first();
        lemma_quote_trim_front_at(s2, lo - 1);
        assert(s2.subrange(lo - 1, s2.len() as int) =~= s.subrange(lo, s.len() as int));
    }
}

proof fn lemma_quote_trim_back_at(s: Seq<char>, hi: int)
    requires
        0 <= hi <= s.len(),
        forall|k: int| hi <= k < s.len() ==> is_quote(#[trigger] s[k]),
        hi == 0 || !is_quote(s[hi - 1]),
    ensures
        quote_trim_back(s) == s.subrange(0, hi),
    decreases s.len() - hi,
{
    if hi == s.len() {
        assert(s.subrange(0, s.len() as int) =~= s);
    } else {
        let s2 = s.drop_last();
        lemma_quote_trim_back_at(s2, hi);
        assert(s2.subrange(0, hi) =~= s.subrange(0, hi));
    }
}

fn trim_quotes(v: &Vec<char>) -> (r: Vec<char>)
    ensures
        r@ == quote_trimmed(v@),
{
    let n = v.len();
    let mut lo: usize = 0;
    loop
        invariant
            lo <= n,
            n == v@.len(),
            forall|k: int| 0 <= k < lo ==> is_quote(#[trigger] v@[k]),
        ensures
            lo <= n,
            lo == n || !is_quote(v@[lo as int]),
            forall|k: int| 0 <= k < lo ==> is_quote(#[trigger] v@[k]),
        decreases n - lo,
    {
        if lo >= n {
            break;
        }
        if v[lo] != '"' {
            break;
        }
        lo = lo + 1;
    }
    let mut hi: usize = n;
    loop
        invariant
            lo <= hi <= n,
            n == v@.len(),
            forall|k: int| hi <= k < n ==> is_quote(#[trigger] v@[k]),
        ensures
            lo <= hi <= n,
            hi == lo || !is_quote(v@[hi - 1]),
            forall|k: int| hi <= k < n ==> is_quote(#[trigger] v@[k]),
        decreases hi,
    {
        if hi <= lo {
            break;
        }
        if v[hi - 1] != '"' {
            break;
        }
        hi = hi - 1;
    }
    proof {
        lemma_quote_trim_front_at(v@, lo as int);
        let front = v@.subrange(lo as int, n as int);
        lemma_quote_trim_back_at(front, hi - lo);
        assert(front.subrange(0, hi - lo) =~= v@.subrange(lo as int, hi as int));
    }
    let mut t: Vec<char> = Vec::new();
    let mut i: usize = lo;
    while i < hi
        invariant
            lo <= i <= hi <= n,
            n == v@.len(),
            t@ == v@.subrange(lo as int, i as int),
        decreases hi - i,
    {
        t.push(v[i]);
        i = i + 1;
        assert(t@ =~= v@.subrange(lo as int, i as int));
    }
    assert(t@ == quote_trimmed(v@));
    t
}

proof fn lemma_dec_value_nonneg(s: Seq<char>)
    requires
        forall|i: int| 0 <= i < s.len() ==> is_dec_digit(#[trigger] s[i]),
    ensures
        dec_value(s) >= 0,
    decreases s.len(),
{
    if s.len() > 0 {
        lemma_dec_value_nonneg(s.drop_last());
    }
}

proof fn lemma_dec_prefix_le(s: Seq<char>, k: int)
    requires
        forall|i: int| 0 <= i < s.len() ==> is_dec_digit(#[trigger] s[i]),
        0 <= k <= s.len(),
    ensures
        dec_value(s.take(k)) <= dec_value(s),
    decreases s.len() - k,
{
    if k == s.len() {
        assert(s.take(k) =~= s);
    } else {
        assert(s.take(k + 1).drop_last() =~= s.take(k));
        assert(forall|i: int| 0 <= i < s.take(k).len() ==> is_dec_digit(#[trigger] s.take(k)[i]));
        lemma_dec_value_nonneg(s.take(k));
        assert(dec_value(s.take(k + 1)) == dec_value(s.take(k)) * 10 + (s[k] as int - '0' as int));
        lemma_dec_prefix_le(s, k + 1);
    }
}

fn is_dec_digit_exec(c: char) -> (r: bool)
    ensures
        r == is_dec_digit(c),
{
    let v = c as u32;
    48 <= v && v <= 57
}

fn dec_digit_val(c: char) -> (r: u32)
    requires
        is_dec_digit(c),
    ensures
        r as int == c as int - '0' as int,
        r < 10,
{
    c as u32 - 48
}

/// Parse a non-empty run of decimal digits as a `u32`; `None` when the
/// input is empty, holds a non-digit, or does not fit.
fn parse_u32_chars(d: &Vec<char>) -> (r: Option<u32>)
    ensures
        r is Some <==> dec_valid_u32(d@),
        r matches Some(v) ==> v == dec_value(d@),
{
    let n = d.len();
    if n == 0 {
        return None;
    }
    let mut acc: u32 = 0;
    let mut i: usize = 0;
    while i < n
        invariant
            i <= n,
            n == d@.len(),
            forall|k: int| 0 <= k < i ==> is_dec_digit(#[trigger] d@[k]),
            acc == dec_value(d@.take(i as int)),
        decreases n - i,
    {
        let c = d[i];
        if !is_dec_digit_exec(c) {
            assert(!is_dec_digit(d@[i as int]));
            return None;
        }
        let dig = dec_digit_val(c);
        proof {
            assert(d@.take(i + 1).drop_last() =~= d@.take(i as int));
            assert(d@.take(i + 1).last() == c);
            assert(dec_value(d@.take(i + 1)) == acc * 10 + dig);
        }
        if acc > 0xFFFF_FFFFu32 / 10 || (acc == 0xFFFF_FFFFu32 / 10 && dig > 0xFFFF_FFFFu32 % 10) {
            proof {
                assert(dec_value(d@.take(i + 1)) > u32::MAX);
                if forall|k: int| 0 <= k < d@.len() ==> is_dec_digit(#[trigger] d@[k]) {
                    lemma_dec_prefix_le(d@, i + 1);
                }
            }
            return None;
        }
        acc = acc * 10 + dig;
        i = i + 1;
    }
    assert(d@.take(n as int) =~= d@);
    Some(acc)
}

fn is_header_exec(l: &Vec<char>) -> (r: bool)
    ensures
        r == is_header_line(l@),
{
    if l.len() < 6 {
        return false;
    }
    let r = l[0] == '+' && l[1] == 'C' && l[2] == 'M' && l[3] == 'G' && l[4] == 'L' && l[5] == ':';
    proof {
        if r {
            assert(l@.subrange(0, 6) =~= header_prefix());
        } else {
            if l@.subrange(0, 6) == header_prefix() {
                assert(l@[0] == '+' && l@[1] == 'C' && l@[2] == 'M' && l@[3] == 'G' && l@[4] == 'L'
                    && l@[5] == ':') by {
                    assert(forall|k: int| 0 <= k < 6 ==> l@[k] == #[trigger] l@.subrange(0, 6)[k]);
                }
            }
        }
    }
    r
}

fn is_ok_exec(l: &Vec<char>) -> (r: bool)
    ensures
        r == is_ok_line(l@),
{
    l.len() == 2 && (l[0] == 'O' || l[0] == 'o') && (l[1] == 'K' || l[1] == 'k')
}

/// The comma-separated fields after the `+CMGL:` marker, each trimmed.
fn header_parts_exec(l: &Vec<char>) -> (r: Vec<Vec<char>>)
    requires
        is_header_line(l@),
    ensures
        views_of(r@) == header_parts(l@),
        r@.len() >= 1,
{
    let n = l.len();
    let mut rest: Vec<char> = Vec::new();
    let mut i: usize = 6;
    while i < n
        invariant
            6 <= i <= n,
            n == l@.len(),
            rest@ == l@.subrange(6, i as int),
        decreases n - i,
    {
        rest.push(l[i]);
        i = i + 1;
        assert(rest@ =~= l@.subrange(6, i as int));
    }
    assert(rest@ =~= l@.subrange(6, n as int));
    let raw = split_sep_exec(&rest, ',');
    let m = raw.len();
    let mut out: Vec<Vec<char>> = Vec::new();
    let mut j: usize = 0;
    while j < m
        invariant
            j <= m,
            m == raw@.len(),
            views_of(raw@) == split_sep(l@.subrange(6, l@.len() as int), ','),
            views_of(out@) =~= header_parts(l@).take(j as int),
        decreases m - j,
    {
        let t = trim_chars(&raw[j]);
        let ghost old_out = out@;
        out.push(t);
        proof {
            lemma_views_push(old_out, t);
            assert(views_of(raw@)[j as int] == raw@[j as int]@);
            assert(header_parts(l@)[j as int] == trimmed(raw@[j as int]@));
            assert(views_of(out@) =~= header_parts(l@).take(j + 1));
        }
        j = j + 1;
    }
    assert(views_of(out@) =~= header_parts(l@));
    out
}

/// Parse a raw listing response into message entries.
///
/// The result is exactly [`parse_cmgl_spec`] of the input: one entry per
/// header line whose index field parses as a decimal `u32`, with the
/// trimmed body lines that follow it joined by single newlines; blank
/// lines and `OK` status lines contribute nothing, and a header whose
/// index does not parse starts no entry.
pub fn parse_cmgl_response(response: &str) -> (r: Vec<SmsEntry>)
    ensures
        models_of(r@) == parse_cmgl_spec(response@),
{
    let cs = chars_of(response);
    let lines = split_sep_exec(&cs, '\n');
    let ghost lseq = views_of(lines@);
    let n = lines.len();
    let mut done: Vec<SmsEntry> = Vec::new();
    let mut have_cur: bool = false;
    let mut cur_index: u32 = 0;
    let mut cur_number: Vec<char> = Vec::new();
    let mut cur_body: Vec<char> = Vec::new();
    let mut i: usize = 0;
    while i < n
        invariant
            i <= n,
            n == lines@.len(),
            lseq == views_of(lines@),
            ({
                let st = fold_lines(lseq.take(i as int));
                &&& models_of(done@) == st.done
                &&& have_cur <==> st.cur is Some
                &&& have_cur ==> st.cur == Some(CurModel {
                    index: cur_index,
                    number: cur_number@,
                    body: cur_body@,
                })
            }),
        decreases n - i,
    {
        let ghost st = fold_lines(lseq.take(i as int));
        let ghost raw = lseq[i as int];
        assert(views_of(lines@)[i as int] == lines@[i as int]@);
        let tl = trim_chars(&lines[i]);
        assert(tl@ == trimmed(raw));
        let ghost st2 = step_line(st, raw);
        proof {
            assert(lseq.take(i + 1).drop_last() =~= lseq.take(i as int));
            assert(lseq.take(i + 1).last() == raw);
            assert(fold_lines(lseq.take(i + 1)) == st2);
        }
        if is_header_exec(&tl) {
            if have_cur {
                let number = string_from_chars(cur_number.as_slice());
                let body = string_from_chars(cur_body.as_slice());
                done.push(SmsEntry { index: cur_index, number, body });
                assert(models_of(done@) =~= flush(st));
            } else {
                assert(models_of(done@) =~= flush(st));
            }
            let parts = header_parts_exec(&tl);
            assert(views_of(parts@)[0] == parts@[0]@);
            match parse_u32_chars(&parts[0]) {
                Some(ix) => {
                    have_cur = true;
                    cur_index = ix;
                    if parts.len() >= 3 {
                        assert(views_of(parts@)[2] == parts@[2]@);
                        cur_number = trim_quotes(&parts[2]);
                    } else {
                        cur_number = Vec::new();
                    }
                    cur_body = Vec::new();
                },
                None => {
                    have_cur = false;
                },
            }
        } else if have_cur {
            let nonempty = tl.len() > 0;
            let okline = is_ok_exec(&tl);
            if nonempty && !okline {
                if cur_body.len() > 0 {
                    let ghost before = cur_body@;
                    cur_body.push('\n');
                    let mut k: usize = 0;
                    let m = tl.len();
                    while k < m
                        invariant
                            k <= m,
                            m == tl@.len(),
                            cur_body@ == before + seq!['\n'] + tl@.take(k as int),
                        decreases m - k,
                    {
                        cur_body.push(tl[k]);
                        k = k + 1;
                        assert(cur_body@ =~= before + seq!['\n'] + tl@.take(k as int));
                    }
                    assert(cur_body@ =~= before + seq!['\n'] + tl@);
                } else {
                    cur_body = tl;
                }
            }
        }
        i = i + 1;
    }
    assert(lseq.take(n as int) =~= lseq);
    let ghost stf = fold_lines(lseq);
    if have_cur {
        let number = string_from_chars(cur_number.as_slice());
        let body = string_from_chars(cur_body.as_slice());
        done.push(SmsEntry { index: cur_index, number, body });
        assert(models_of(done@) =~= flush(stf));
    } else {
        assert(models_of(done@) =~= flush(stf));
    }
    done
}

} // verus!
