//! Candidate-list parsing.
//!
//! A candidate list is a newline-delimited text where each line names a
//! `host:port` endpoint.  The backing file is re-read by the driver every
//! keep-alive cycle; this module turns its raw bytes into lines and each
//! line into a host and a port, skipping malformed lines instead of
//! aborting, so one bad entry never stops a cycle.

use vstd::prelude::*;

verus! {

/// The byte value of a line feed.
pub const NEWLINE: u8 = 0x0a;

/// The byte value of a carriage return.
pub const CARRIAGE_RETURN: u8 = 0x0d;

/// The byte value of a colon.
pub const COLON: u8 = 0x3a;

/// The views of a vector of byte lines.
pub open spec fn views(lines: Seq<Vec<u8>>) -> Seq<Seq<u8>> {
    lines.map_values(|l: Vec<u8>| l@)
}

/// A line terminated by a newline loses one trailing carriage return.
pub open spec fn spec_strip_cr(l: Seq<u8>) -> Seq<u8> {
    if l.len() > 0 && l[l.len() - 1] == CARRIAGE_RETURN {
        l.take(l.len() - 1)
    } else {
        l
    }
}

/// The lines of a text, reading byte by byte with `cur` the line begun so
/// far: a newline ends a line (and strips one carriage return before it),
/// the end of the text ends a last line only if it is non-empty, and that
/// last line keeps a bare trailing carriage return.
pub open spec fn spec_lines_from(t: Seq<u8>, cur: Seq<u8>) -> Seq<Seq<u8>>
    decreases t.len(),
{
    if t.len() == 0 {
        if cur.len() == 0 {
            Seq::empty()
        } else {
            seq![cur]
        }
    } else if t[0] == NEWLINE {
        seq![spec_strip_cr(cur)] + spec_lines_from(t.skip(1), Seq::empty())
    } else {
        spec_lines_from(t.skip(1), cur.push(t[0]))
    }
}

/// The lines of a candidate-list text.
pub open spec fn spec_lines(t: Seq<u8>) -> Seq<Seq<u8>> {
    spec_lines_from(t, Seq::empty())
}

/// Removes one trailing carriage return, if any.
fn strip_cr(line: Vec<u8>) -> (r: Vec<u8>)
    ensures
        r@ == spec_strip_cr(line@),
{
    let ghost before: Seq<u8> = line@;
    let mut line = line;
    if line.len() > 0 && line[line.len() - 1] == CARRIAGE_RETURN {
        line.pop();
        proof {
            assert(line@ =~= spec_strip_cr(before));
        }
    }
    line
}

/// Splits a text into its lines, as a line-oriented reader would hand
/// them out.
pub fn split_lines(text: &Vec<u8>) -> (lines: Vec<Vec<u8>>)
    ensures
        views(lines@) == spec_lines(text@),
{
    let ghost t: Seq<u8> = text@;
    let mut out: Vec<Vec<u8>> = Vec::new();
    let mut cur: Vec<u8> = Vec::new();
    let mut i: usize = 0;
    proof {
        assert(t.skip(0) =~= t);
        assert(views(out@) + spec_lines_from(t, cur@) =~= spec_lines(t));
    }
    while i < text.len()
        invariant
            i <= t.len(),
            text@ == t,
            spec_lines(t) == views(out@) + spec_lines_from(t.skip(i as int), cur@),
        decreases t.len() - i,
    {
        proof {
            assert(t.skip(i as int)[0] == t[i as int]);
            assert(t.skip(i as int).skip(1) =~= t.skip(i + 1));
        }
        let b: u8 = text[i];
        if b == NEWLINE {
            let done = strip_cr(cur);
            cur = Vec::new();
            let ghost prev: Seq<Vec<u8>> = out@;
            out.push(done);
            proof {
                assert(views(out@) =~= views(prev) + seq![done@]);
                assert(views(out@) + spec_lines_from(t.skip(i + 1), cur@) =~= spec_lines(t));
            }
        } else {
            cur.push(b);
        }
        i = i + 1;
    }
    proof {
        assert(t.skip(i as int) =~= Seq::<u8>::empty());
    }
    if cur.len() > 0 {
        let ghost prev: Seq<Vec<u8>> = out@;
        out.push(cur);
        proof {
            assert(views(out@) =~= views(prev) + seq![out@[out@.len() - 1]@]);
            assert(views(out@) =~= spec_lines(t));
        }
    } else {
        proof {
            assert(views(out@) =~= spec_lines(t));
        }
    }
    out
}

/// Whether a byte is an ASCII decimal digit.
pub open spec fn spec_is_digit(b: u8) -> bool {
    0x30 <= b <= 0x39
}

/// Whether every byte of a sequence is a decimal digit.
pub open spec fn spec_all_digits(s: Seq<u8>) -> bool {
    forall|j: int| 0 <= j < s.len() ==> spec_is_digit(s[j])
}

/// The value of a sequence of decimal digits, most significant first.
pub open spec fn spec_dec_val(s: Seq<u8>) -> int
    decreases s.len(),
{
    if s.len() == 0 {
        0
    } else {
        spec_dec_val(s.take(s.len() - 1)) * 10 + (s[s.len() - 1] - 0x30)
    }
}

/// Whether a sequence of bytes spells a port: at least one digit, only
/// digits, and a value that fits in sixteen bits.
pub open spec fn spec_valid_port(s: Seq<u8>) -> bool {
    &&& s.len() > 0
    &&& spec_all_digits(s)
    &&& spec_dec_val(s) <= 0xffff
}

/// The value of a digit string is never negative.
proof fn lemma_dec_val_nonneg(s: Seq<u8>)
    requires
        spec_all_digits(s),
    ensures
        spec_dec_val(s) >= 0,
    decreases s.len(),
{
    if s.len() > 0 {
        assert(spec_all_digits(s.take(s.len() - 1)));
        lemma_dec_val_nonneg(s.take(s.len() - 1));
    }
}

/// Appending digits never shrinks the value: the value of a prefix bounds
/// the value of the whole string from below.
proof fn lemma_dec_val_grows(s: Seq<u8>, i: int)
    requires
        0 <= i <= s.len(),
        spec_all_digits(s),
    ensures
        spec_dec_val(s.take(i)) <= spec_dec_val(s),
    decreases s.len() - i,
{
    if i == s.len() {
        assert(s.take(i) =~= s);
    } else {
        assert(s.take(i + 1).take(i) =~= s.take(i));
        assert(s.take(i + 1)[i] == s[i]);
        assert(spec_all_digits(s.take(i)));
        lemma_dec_val_nonneg(s.take(i));
        assert(spec_dec_val(s.take(i + 1)) == spec_dec_val(s.take(i)) * 10 + (s[i] - 0x30));
        lemma_dec_val_grows(s, i + 1);
    }
}

/// Reads a port number from a byte string.  Exactly the digit strings
/// whose value fits in sixteen bits are accepted, and the result is that
/// value.
pub fn parse_port(s: &Vec<u8>) -> (r: Option<u16>)
    ensures
        r matches Some(p) ==> spec_valid_port(s@) && p as int == spec_dec_val(s@),
        r is None ==> !spec_valid_port(s@),
{
    if s.len() == 0 {
        return None;
    }
    let mut v: u32 = 0;
    let mut i: usize = 0;
    proof {
        assert(s@.take(0) =~= Seq::<u8>::empty());
    }
    while i < s.len()
        invariant
            i <= s@.len(),
            v <= 0xffff,
            spec_all_digits(s@.take(i as int)),
            v as int == spec_dec_val(s@.take(i as int)),
        decreases s@.len() - i,
    {
        let b: u8 = s[i];
        if !(0x30 <= b && b <= 0x39) {
            return None;
        }
        let d: u32 = (b - 0x30) as u32;
        proof {
            assert(s@.take(i + 1).take(i as int) =~= s@.take(i as int));
            assert(s@.take(i + 1)[i as int] == s@[i as int]);
            assert(spec_all_digits(s@.take(i + 1)));
        }
        v = v * 10 + d;
        if v > 0xffff {
            proof {
                if spec_all_digits(s@) {
                    lemma_dec_val_grows(s@, i + 1);
                }
            }
            return None;
        }
        i = i + 1;
    }
    proof {
        assert(s@.take(s@.len() as int) =~= s@);
    }
    Some(v as u16)
}

/// The index of the last colon in a byte string, or a negative value when
/// it has none.
pub open spec fn spec_last_colon(s: Seq<u8>) -> int
    decreases s.len(),
{
    if s.len() == 0 {
        -1
    } else if s[s.len() - 1] == COLON {
        s.len() - 1
    } else {
        spec_last_colon(s.take(s.len() - 1))
    }
}

/// A candidate line splits at its last colon into a non-empty host and a
/// valid port; every other line is malformed.
pub open spec fn spec_host_port(s: Seq<u8>) -> Option<(Seq<u8>, u16)> {
    let k = spec_last_colon(s);
    if k >= 1 && spec_valid_port(s.skip(k + 1)) {
        Some((s.take(k), spec_dec_val(s.skip(k + 1)) as u16))
    } else {
        None
    }
}

/// Splits one candidate line into its host and its port.  A line without
/// a colon, with an empty host, or with anything but a sixteen-bit decimal
/// number after the last colon is rejected.
pub fn split_host_port(line: &Vec<u8>) -> (r: Option<(Vec<u8>, u16)>)
    ensures
        r matches Some(hp) ==> (spec_host_port(line@) matches Some(shp) && hp.0@ == shp.0 && hp.1
            == shp.1),
        r is None ==> spec_host_port(line@) is None,
{
    let mut j: usize = line.len();
    let mut found: Option<usize> = None;
    proof {
        assert(line@.take(line@.len() as int) =~= line@);
    }
    while j > 0
        invariant_except_break
            found is None,
            j <= line@.len(),
            spec_last_colon(line@) == spec_last_colon(line@.take(j as int)),
        ensures
            found matches Some(k) ==> k as int == spec_last_colon(line@) && (k as int) < line@.len(),
            found is None ==> spec_last_colon(line@) == -1,
        decreases j,
    {
        proof {
            assert(line@.take(j as int)[j - 1] == line@[j - 1]);
            assert(line@.take(j as int).take(j - 1) =~= line@.take(j - 1));
        }
        if line[j - 1] == COLON {
            found = Some(j - 1);
            break ;
        }
        j = j - 1;
        proof {
            if j == 0 {
                assert(line@.take(0) =~= Seq::<u8>::empty());
            }
        }
    }
    match found {
        None => None,
        Some(k) => {
            if k == 0 {
                return None;
            }
            let port_bytes = crate::codec::copy_range(line, k + 1, line.len());
            proof {
                assert(port_bytes@ =~= line@.skip(k + 1));
            }
            match parse_port(&port_bytes) {
                None => None,
                Some(p) => {
                    let host = crate::codec::copy_range(line, 0, k);
                    proof {
                        assert(host@ =~= line@.take(k as int));
                    }
                    Some((host, p))
                },
            }
        },
    }
}

/// The well-formed candidates among a sequence of lines, in order, each
/// as its host and port; malformed lines are skipped.
pub open spec fn spec_candidates_from(lines: Seq<Seq<u8>>) -> Seq<(Seq<u8>, u16)>
    decreases lines.len(),
{
    if lines.len() == 0 {
        Seq::empty()
    } else {
        match spec_host_port(lines[0]) {
            Some(hp) => seq![hp] + spec_candidates_from(lines.skip(1)),
            None => spec_candidates_from(lines.skip(1)),
        }
    }
}

/// The candidates of a whole candidate-list text.
pub open spec fn spec_candidates(text: Seq<u8>) -> Seq<(Seq<u8>, u16)> {
    spec_candidates_from(spec_lines(text))
}

/// Parses a whole candidate-list text into its well-formed endpoints,
/// skipping malformed lines so that one bad entry never aborts a cycle.
pub fn parse_candidates(text: &Vec<u8>) -> (out: Vec<(Vec<u8>, u16)>)
    ensures
        out@.map_values(|c: (Vec<u8>, u16)| (c.0@, c.1)) == spec_candidates(text@),
{
    let lines = split_lines(text);
    let ghost lv: Seq<Seq<u8>> = views(lines@);
    let mut out: Vec<(Vec<u8>, u16)> = Vec::new();
    let mut i: usize = 0;
    proof {
        assert(lv.skip(0) =~= lv);
        assert(out@.map_values(|c: (Vec<u8>, u16)| (c.0@, c.1)) + spec_candidates_from(lv)
            =~= spec_candidates_from(lv));
    }
    while i < lines.len()
        invariant
            i <= lines@.len(),
            lv == views(lines@),
            spec_candidates_from(lv) == out@.map_values(|c: (Vec<u8>, u16)| (c.0@, c.1))
                + spec_candidates_from(lv.skip(i as int)),
        decreases lines@.len() - i,
    {
        proof {
            assert(lv.skip(i as int)[0] == lv[i as int]);
            assert(lv[i as int] == lines@[i as int]@);
            assert(lv.skip(i as int).skip(1) =~= lv.skip(i + 1));
        }
        match split_host_port(&lines[i]) {
            Some(hp) => {
                let ghost prev: Seq<(Vec<u8>, u16)> = out@;
                let ghost hpv: (Seq<u8>, u16) = (hp.0@, hp.1);
                out.push(hp);
                proof {
                    assert(out@.map_values(|c: (Vec<u8>, u16)| (c.0@, c.1)) =~= prev.map_values(
                        |c: (Vec<u8>, u16)| (c.0@, c.1),
                    ) + seq![hpv]);
                    assert(spec_host_port(lv[i as int]) == Some(hpv));
                    assert(out@.map_values(|c: (Vec<u8>, u16)| (c.0@, c.1)) + spec_candidates_from(
                        lv.skip(i + 1),
                    ) =~= spec_candidates_from(lv));
                }
            },
            None => {
            },
        }
        i = i + 1;
    }
    proof {
        assert(lv.skip(i as int) =~= Seq::<Seq<u8>>::empty());
        assert(out@.map_values(|c: (Vec<u8>, u16)| (c.0@, c.1)) =~= spec_candidates(text@));
    }
    out
}

} // verus!
