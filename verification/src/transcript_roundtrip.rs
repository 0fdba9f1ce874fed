//! What `notes_segments::parse_canonical_transcript` reads back from a
//! `transcript.md` that `notes::render_transcript_header` and
//! `notes::render_transcript_line` wrote.

use vstd::prelude::*;

use crate::notes::{header_text, hms_text, label_text, transcript_line_text};
use crate::notes_segments::{
    all_digits, body_start, digits_value, is_blank, is_meta_line, parse_body, parse_hms_spec,
    parse_line_spec, parse_u64_spec, speaker_marker, split_colon, timestamp_marker, title_marker,
    transcript_parse, HmsOutcome, LineOutcome, ParseOutcome, SegmentView,
};
use crate::text::{
    dec, dec2, digit, digit_value, find, find_from, is_ws, lines, lines_from, matches_at, next_nl,
    starts_with, strip_cr, trim, trim_end, trim_start,
};
use crate::types::{AttributedChunk, SpeakerLabel};

verus! {

/// `s` holds no `'\n'`.
pub open spec fn no_newline(s: Seq<char>) -> bool {
    forall|i: int| 0 <= i < s.len() ==> s[i] != '\n'
}

// ---------------------------------------------------------------------
// Lines of concatenated text
// ---------------------------------------------------------------------

proof fn lemma_next_nl_shift(p: Seq<char>, s: Seq<char>, i: int)
    requires
        0 <= i <= s.len(),
    ensures
        next_nl(p + s, p.len() + i) == p.len() + next_nl(s, i),
    decreases s.len() - i,
{
    if i < s.len() {
        assert((p + s)[p.len() + i] == s[i]);
        if s[i] != '\n' {
            lemma_next_nl_shift(p, s, i + 1);
        }
    }
}

proof fn lemma_lines_shift(p: Seq<char>, s: Seq<char>, i: int)
    requires
        0 <= i,
    ensures
        lines_from(p + s, p.len() + i) == lines_from(s, i),
    decreases s.len() - i,
{
    if i < s.len() {
        lemma_next_nl_shift(p, s, i);
        crate::text::lemma_next_nl(s, i);
        let e = next_nl(s, i);
        assert((p + s).subrange(p.len() + i, p.len() + e) == s.subrange(i, e));
        assert((p + s).subrange(p.len() + i, (p + s).len() as int) == s.subrange(
            i,
            s.len() as int,
        ));
        if e < s.len() {
            lemma_lines_shift(p, s, e + 1);
        }
    }
}

proof fn lemma_next_nl_at(d: Seq<char>, j: int, k: int)
    requires
        0 <= j <= k < d.len(),
        d[k] == '\n',
        forall|m: int| j <= m < k ==> d[m] != '\n',
    ensures
        next_nl(d, j) == k,
    decreases k - j,
{
    if j < k {
        lemma_next_nl_at(d, j + 1, k);
    }
}

/// The lines of `x`, a line ending, then `r`: `x` without a final
/// `'\r'`, then the lines of `r`.
proof fn lemma_lines_cons(x: Seq<char>, r: Seq<char>)
    requires
        no_newline(x),
    ensures
        lines(x + seq!['\n'] + r) == seq![strip_cr(x)] + lines(r),
{
    let d = x + seq!['\n'] + r;
    assert(d[x.len() as int] == '\n');
    assert forall|m: int| 0 <= m < x.len() implies d[m] != '\n' by {
        assert(d[m] == x[m]);
    }
    lemma_next_nl_at(d, 0, x.len() as int);
    assert(d.subrange(0, x.len() as int) == x);
    lemma_lines_shift(x + seq!['\n'], r, 0);
    assert(d == (x + seq!['\n']) + r);
}


// ---------------------------------------------------------------------
// Decimal digits
// ---------------------------------------------------------------------

proof fn lemma_digit(d: nat)
    requires
        d < 10,
    ensures
        digit_value(digit(d)) == Some(d),
{
}

proof fn lemma_dec(n: nat)
    ensures
        dec(n).len() >= 1,
        all_digits(dec(n)),
        digits_value(dec(n)) == n,
    decreases n,
{
    if n < 10 {
        lemma_digit(n);
        assert(dec(n).drop_last() =~= Seq::<char>::empty());
        assert(digits_value(Seq::<char>::empty()) == 0);
        assert(dec(n).last() == digit(n));
    } else {
        lemma_dec(n / 10);
        lemma_digit(n % 10);
        let p = dec(n / 10);
        assert(dec(n).drop_last() =~= p);
        assert(dec(n).last() == digit(n % 10));
        assert(digits_value(dec(n)) == digits_value(p) * 10 + (n % 10));
        assert forall|i: int| 0 <= i < dec(n).len() implies (digit_value(#[trigger] dec(n)[i]) is Some) by {
            if i < p.len() {
                assert(dec(n)[i] == p[i]);
            }
        }
    }
}

proof fn lemma_dec2(n: nat)
    ensures
        dec2(n).len() >= 1,
        all_digits(dec2(n)),
        digits_value(dec2(n)) == n,
{
    if n < 10 {
        lemma_digit(n);
        lemma_digit(0);
        let d = dec2(n);
        assert(d.drop_last() =~= seq!['0']);
        assert(seq!['0'].drop_last() =~= Seq::<char>::empty());
        assert(digits_value(Seq::<char>::empty()) == 0);
        assert(digits_value(seq!['0']) == 0);
        assert(d.last() == digit(n));
    } else {
        lemma_dec(n);
    }
}

/// A nonempty run of digits reads as its value.
proof fn lemma_parse_digits(ds: Seq<char>)
    requires
        ds.len() >= 1,
        all_digits(ds),
        digits_value(ds) <= u64::MAX,
    ensures
        parse_u64_spec(ds) == Some(digits_value(ds)),
{
    assert(digit_value(ds[0]) is Some);
}


// ---------------------------------------------------------------------
// Finding markers
// ---------------------------------------------------------------------

/// `pat` first occurs at `k` when it occurs there and nowhere in
/// `[i, k)`.
pub proof fn lemma_find_first(s: Seq<char>, pat: Seq<char>, i: int, k: int)
    requires
        0 <= i <= k,
        matches_at(s, pat, k),
        forall|j: int| i <= j < k ==> !matches_at(s, pat, j),
    ensures
        find_from(s, pat, i) == Some(k),
    decreases k - i,
{
    if i < k {
        lemma_find_first(s, pat, i + 1, k);
    }
}

proof fn lemma_find_absent(s: Seq<char>, pat: Seq<char>, i: int)
    requires
        0 <= i,
        forall|j: int| i <= j ==> !matches_at(s, pat, j),
    ensures
        find_from(s, pat, i) is None,
    decreases s.len() + 1 - i,
{
    if i + pat.len() <= s.len() {
        lemma_find_absent(s, pat, i + 1);
    }
}

/// In `x + pat + r`, where no character of `x` is `pat`'s first, `pat`
/// is first found right after `x`.
proof fn lemma_find_after(x: Seq<char>, pat: Seq<char>, r: Seq<char>)
    requires
        pat.len() >= 1,
        forall|i: int| 0 <= i < x.len() ==> x[i] != pat[0],
    ensures
        find(x + pat + r, pat) == Some(x.len() as int),
{
    let s = x + pat + r;
    assert(s.subrange(x.len() as int, (x.len() + pat.len()) as int) =~= pat);
    assert forall|j: int| 0 <= j < x.len() implies !matches_at(s, pat, j) by {
        if matches_at(s, pat, j) {
            assert(s.subrange(j, j + pat.len())[0] == s[j]);
            assert(s[j] == x[j]);
        }
    }
    lemma_find_first(s, pat, 0, x.len() as int);
}

/// `':'`-split of a run of digits followed by `':'` and `r`.
proof fn lemma_split_colon_cons(x: Seq<char>, r: Seq<char>)
    requires
        all_digits(x),
    ensures
        split_colon(x + seq![':'] + r) == seq![x] + split_colon(r),
{
    assert forall|i: int| 0 <= i < x.len() implies x[i] != seq![':'][0] by {
        assert(digit_value(x[i]) is Some);
    }
    lemma_find_after(x, seq![':'], r);
    let s = x + seq![':'] + r;
    assert(s.subrange(0, x.len() as int) =~= x);
    assert(s.subrange((x.len() + 1) as int, s.len() as int) =~= r);
}

proof fn lemma_split_colon_digits(x: Seq<char>)
    requires
        all_digits(x),
    ensures
        split_colon(x) == seq![x],
{
    assert forall|j: int| 0 <= j implies !matches_at(x, seq![':'], j) by {
        if matches_at(x, seq![':'], j) {
            assert(x.subrange(j, j + 1)[0] == x[j]);
            assert(digit_value(x[j]) is Some);
        }
    }
    lemma_find_absent(x, seq![':'], 0);
}

// ---------------------------------------------------------------------
// Timestamps
// ---------------------------------------------------------------------

/// `HH:MM:SS` holds digits and `':'` only, and reads back as the whole
/// seconds of `ms`.
proof fn lemma_hms(ms: nat)
    requires
        ms <= u64::MAX,
    ensures
        forall|i: int|
            0 <= i < hms_text(ms).len() ==> #[trigger] hms_text(ms)[i] == ':' || (digit_value(
                hms_text(ms)[i],
            ) is Some),
        parse_hms_spec(hms_text(ms)) == HmsOutcome::Millis((ms / 1000) * 1000),
{
    let total = ms / 1000;
    let h = total / 3600;
    let m = (total % 3600) / 60;
    let s = total % 60;
    lemma_dec2(h);
    lemma_dec2(m);
    lemma_dec2(s);
    let (a, b, c) = (dec2(h), dec2(m), dec2(s));
    reveal_strlit(":");
    assert(":"@ =~= seq![':']);
    let t = hms_text(ms);
    assert(t =~= a + seq![':'] + (b + seq![':'] + c));
    assert forall|i: int| 0 <= i < t.len() implies #[trigger] t[i] == ':' || (digit_value(
        t[i],
    ) is Some) by {
        if i < a.len() {
            assert(t[i] == a[i]);
        } else if i == a.len() {
        } else if i < a.len() + 1 + b.len() {
            assert(t[i] == b[i - a.len() - 1]);
        } else if i == a.len() + 1 + b.len() {
        } else {
            assert(t[i] == c[i - a.len() - 2 - b.len()]);
        }
    }
    lemma_split_colon_cons(a, b + seq![':'] + c);
    lemma_split_colon_cons(b, c);
    lemma_split_colon_digits(c);
    let parts = split_colon(t);
    assert(parts =~= seq![a, b, c]);
    lemma_parse_digits(a);
    lemma_parse_digits(b);
    lemma_parse_digits(c);
    assert(total == 3600 * h + (total % 3600)) by {
        vstd::arithmetic::div_mod::lemma_fundamental_div_mod(total as int, 3600);
    }
    assert(total % 3600 == 60 * m + (total % 3600) % 60) by {
        vstd::arithmetic::div_mod::lemma_fundamental_div_mod((total % 3600) as int, 60);
    }
    assert((total % 3600) % 60 == s) by {
        vstd::arithmetic::div_mod::lemma_mod_mod(total as int, 60, 60);
    }
    assert(h * 3600 + m * 60 + s == total);
    assert(total * 1000 <= ms) by {
        vstd::arithmetic::div_mod::lemma_fundamental_div_mod(ms as int, 1000);
    }
}


// ---------------------------------------------------------------------
// One body line
// ---------------------------------------------------------------------

/// A speaker label that a transcript line can carry and give back: a
/// display name is not empty and holds neither `*` nor a line break.
pub open spec fn plain_label(l: SpeakerLabel) -> bool {
    match l {
        SpeakerLabel::Named(name) => name@.len() >= 1 && forall|i: int|
            0 <= i < name@.len() ==> #[trigger] name@[i] != '*' && name@[i] != '\n',
        _ => true,
    }
}

/// Every chunk's speaker label is plain.
pub open spec fn plain_speakers(chunks: Seq<AttributedChunk>) -> bool {
    forall|i: int| 0 <= i < chunks.len() ==> plain_label(#[trigger] chunks[i].speaker)
}

proof fn lemma_label(l: SpeakerLabel)
    requires
        plain_label(l),
    ensures
        label_text(l).len() >= 1,
        forall|i: int|
            0 <= i < label_text(l).len() ==> #[trigger] label_text(l)[i] != '*'
                && label_text(l)[i] != '\n',
{
    reveal_strlit("Me");
    reveal_strlit("Them");
    reveal_strlit("Unknown");
}

proof fn lemma_trim_end_last(s: Seq<char>)
    ensures
        trim_end(s).len() > 0 ==> !is_ws(trim_end(s).last()),
        trim_end(s).len() <= s.len(),
        s.len() > 0 && !is_ws(s[0]) ==> trim_end(s).len() > 0 && trim_end(s)[0] == s[0],
    decreases s.len(),
{
    if s.len() > 0 && is_ws(s.last()) {
        lemma_trim_end_last(s.drop_last());
    }
}

/// A rendered body line, without its line ending.
pub open spec fn body_line(c: AttributedChunk) -> Seq<char> {
    "**"@ + label_text(c.speaker) + "** ["@ + hms_text(c.chunk.start_ms as nat) + "]: "@ + trim(
        c.chunk.text@,
    )
}

/// What the parser reads back from the body line of `c`, as the
/// `ordinal`-th segment.
pub open spec fn segment_read_back(c: AttributedChunk, ordinal: nat) -> SegmentView {
    SegmentView {
        ordinal,
        speaker: label_text(c.speaker),
        start_ms: (c.chunk.start_ms as nat / 1000) * 1000,
        text: trim(c.chunk.text@),
    }
}

proof fn lemma_body_line(c: AttributedChunk)
    requires
        no_newline(trim(c.chunk.text@)),
        plain_label(c.speaker),
    ensures
        transcript_line_text(c.speaker, c.chunk.start_ms as nat, c.chunk.text@) == body_line(c)
            + seq!['\n'],
        no_newline(body_line(c)),
        strip_cr(body_line(c)) == body_line(c),
        !is_blank(body_line(c)),
        parse_line_spec(body_line(c)) == LineOutcome::Parsed(
            label_text(c.speaker),
            (c.chunk.start_ms as nat / 1000) * 1000,
            trim(c.chunk.text@),
        ),
{
    let ms = c.chunk.start_ms as nat;
    let lab = label_text(c.speaker);
    let h = hms_text(ms);
    let t = trim(c.chunk.text@);
    reveal_strlit("**");
    reveal_strlit("** [");
    reveal_strlit("]: ");
    reveal_strlit("\n");
    lemma_label(c.speaker);
    lemma_hms(ms);
    let l = body_line(c);
    assert(l =~= seq!['*', '*'] + lab + seq!['*', '*', ' ', '['] + h + seq![']', ':', ' '] + t);
    // No line ending inside, and no trailing '\r'.
    lemma_trim_end_last(trim_start(c.chunk.text@));
    assert forall|i: int| 0 <= i < l.len() implies l[i] != '\n' by {
        let o1 = 2 + lab.len();
        let o2 = o1 + 4;
        let o3 = o2 + h.len();
        let o4 = o3 + 3;
        if i < 2 {
        } else if i < o1 {
            assert(l[i] == lab[i - 2]);
        } else if i < o2 {
        } else if i < o3 {
            assert(l[i] == h[i - o2]);
        } else if i < o4 {
        } else {
            assert(l[i] == t[i - o4]);
        }
    }
    if t.len() > 0 {
        assert(l.last() == t.last());
    } else {
        assert(l.last() == ' ');
    }
    // Not blank: it starts with '*'.
    assert(!is_ws(l[0]));
    assert(trim_start(l) == l);
    lemma_trim_end_last(l);
    // The speaker marker.
    assert(l.subrange(0, 2) =~= seq!['*', '*']);
    assert(starts_with(l, seq!['*', '*']));
    let after = l.subrange(2, l.len() as int);
    assert(after =~= lab + seq!['*', '*', ' ', '['] + (h + seq![']', ':', ' '] + t));
    assert(speaker_marker() =~= seq!['*', '*', ' ', '[']);
    lemma_find_after(lab, speaker_marker(), h + seq![']', ':', ' '] + t);
    let k = lab.len() as int;
    assert(after.subrange(0, k) =~= lab);
    let rest = after.subrange(k + 4, after.len() as int);
    assert(rest =~= h + seq![']', ':', ' '] + t);
    // The timestamp delimiter.
    assert(timestamp_marker() =~= seq![']', ':', ' ']);
    assert forall|i: int| 0 <= i < h.len() implies h[i] != timestamp_marker()[0] by {
        assert(h[i] == ':' || (digit_value(h[i]) is Some));
    }
    lemma_find_after(h, timestamp_marker(), t);
    let m = h.len() as int;
    assert(rest.subrange(0, m) =~= h);
    assert(rest.subrange(m + 3, rest.len() as int) =~= t);
}


// ---------------------------------------------------------------------
// The whole transcript
// ---------------------------------------------------------------------

/// The body of `transcript.md` once the lines of `chunks` were appended
/// in order.
pub open spec fn transcript_body(chunks: Seq<AttributedChunk>) -> Seq<char>
    decreases chunks.len(),
{
    if chunks.len() == 0 {
        Seq::empty()
    } else {
        transcript_line_text(chunks[0].speaker, chunks[0].chunk.start_ms as nat, chunks[0].chunk.text@)
            + transcript_body(chunks.drop_first())
    }
}

/// Appending one chunk's line extends the body by exactly that line.
pub proof fn lemma_transcript_body_push(chunks: Seq<AttributedChunk>, c: AttributedChunk)
    ensures
        transcript_body(chunks.push(c)) == transcript_body(chunks) + transcript_line_text(
            c.speaker,
            c.chunk.start_ms as nat,
            c.chunk.text@,
        ),
    decreases chunks.len(),
{
    let line = transcript_line_text(c.speaker, c.chunk.start_ms as nat, c.chunk.text@);
    if chunks.len() == 0 {
        assert(chunks.push(c).drop_first() =~= Seq::<AttributedChunk>::empty());
        assert(transcript_body(chunks.push(c)) == line + transcript_body(Seq::empty()));
        assert(line + Seq::<char>::empty() =~= line);
        assert(Seq::<char>::empty() + line =~= line);
    } else {
        assert(chunks.push(c).drop_first() =~= chunks.drop_first().push(c));
        lemma_transcript_body_push(chunks.drop_first(), c);
        let first = transcript_line_text(
            chunks[0].speaker,
            chunks[0].chunk.start_ms as nat,
            chunks[0].chunk.text@,
        );
        assert(chunks.push(c)[0] == chunks[0]);
        assert(first + (transcript_body(chunks.drop_first()) + line) =~= (first
            + transcript_body(chunks.drop_first())) + line);
    }
}

/// The segments read back from the lines of `chunks`, numbered from 1.
pub open spec fn read_back(chunks: Seq<AttributedChunk>) -> Seq<SegmentView> {
    Seq::new(chunks.len(), |i: int| segment_read_back(chunks[i], (i + 1) as nat))
}

/// Every chunk's trimmed text fits on one line.
pub open spec fn single_line_texts(chunks: Seq<AttributedChunk>) -> bool {
    forall|i: int| 0 <= i < chunks.len() ==> no_newline(trim(#[trigger] chunks[i].chunk.text@))
}

proof fn lemma_body_lines(chunks: Seq<AttributedChunk>)
    requires
        single_line_texts(chunks),
        plain_speakers(chunks),
    ensures
        lines(transcript_body(chunks)) == Seq::new(chunks.len(), |i: int| body_line(chunks[i])),
    decreases chunks.len(),
{
    if chunks.len() > 0 {
        let rest = chunks.drop_first();
        assert(single_line_texts(rest) && plain_speakers(rest)) by {
            assert forall|i: int| 0 <= i < rest.len() implies no_newline(
                trim(#[trigger] rest[i].chunk.text@),
            ) by {
                assert(rest[i] == chunks[i + 1]);
            }
            assert forall|i: int| 0 <= i < rest.len() implies plain_label(#[trigger] rest[i].speaker) by {
                assert(rest[i] == chunks[i + 1]);
            }
        }
        lemma_body_lines(rest);
        assert(no_newline(trim(chunks[0].chunk.text@)));
        assert(plain_label(chunks[0].speaker));
        lemma_body_line(chunks[0]);
        lemma_lines_cons(body_line(chunks[0]), transcript_body(rest));
        assert(transcript_body(chunks) == body_line(chunks[0]) + seq!['\n'] + transcript_body(rest));
        assert(lines(transcript_body(chunks)) =~= Seq::new(chunks.len(), |i: int| body_line(chunks[i])));
    } else {
        assert(lines(Seq::<char>::empty()) =~= Seq::<Seq<char>>::empty());
    }
}

proof fn lemma_parse_body(
    ls: Seq<Seq<char>>,
    base: int,
    chunks: Seq<AttributedChunk>,
    k: int,
)
    requires
        0 <= base,
        0 <= k <= chunks.len(),
        ls.len() == base + chunks.len(),
        single_line_texts(chunks),
        plain_speakers(chunks),
        forall|i: int| 0 <= i < chunks.len() ==> ls[base + i] == body_line(#[trigger] chunks[i]),
    ensures
        parse_body(ls, base + k, read_back(chunks).take(k)) == ParseOutcome::Done(read_back(chunks)),
    decreases chunks.len() - k,
{
    let rb = read_back(chunks);
    if k == chunks.len() {
        assert(rb.take(k) =~= rb);
    } else {
        let c = chunks[k];
        assert(ls[base + k] == body_line(c));
        assert(no_newline(trim(c.chunk.text@)));
        assert(plain_label(c.speaker));
        lemma_body_line(c);
        assert(rb.take(k).push(
            SegmentView {
                ordinal: rb.take(k).len() + 1,
                speaker: label_text(c.speaker),
                start_ms: (c.chunk.start_ms as nat / 1000) * 1000,
                text: trim(c.chunk.text@),
            },
        ) =~= rb.take(k + 1));
        lemma_parse_body(ls, base, chunks, k + 1);
    }
}

proof fn lemma_header_lines(title: Seq<char>, started: Seq<char>, ended: Option<Seq<char>>, r: Seq<char>)
    requires
        no_newline(title),
        no_newline(started),
        ended matches Some(e) ==> no_newline(e),
    ensures
        ({
            let ls = lines(header_text(Some(title), started, ended) + r);
            &&& ls.len() == lines(r).len() + 3
            &&& starts_with(ls[0], title_marker())
            &&& is_meta_line(ls[1])
            &&& is_blank(ls[2])
            &&& ls.subrange(3, ls.len() as int) == lines(r)
        }),
{
    reveal_strlit("# ");
    reveal_strlit("\n");
    reveal_strlit("*");
    reveal_strlit("*\n");
    reveal_strlit(" — ");
    let l0 = seq!['#', ' '] + title;
    let meta = match ended {
        Some(e) => seq!['*'] + started + seq![' ', '—', ' '] + e + seq!['*'],
        None => seq!['*'] + started + seq!['*'],
    };
    assert(header_text(Some(title), started, ended) =~= l0 + seq!['\n'] + meta + seq!['\n']
        + seq!['\n']);
    let d = header_text(Some(title), started, ended) + r;
    assert(d =~= l0 + seq!['\n'] + (meta + seq!['\n'] + (Seq::<char>::empty() + seq!['\n'] + r)));
    assert(no_newline(l0)) by {
        assert forall|i: int| 0 <= i < l0.len() implies l0[i] != '\n' by {
            if i >= 2 {
                assert(l0[i] == title[i - 2]);
            }
        }
    }
    assert(no_newline(meta)) by {
        assert forall|i: int| 0 <= i < meta.len() implies meta[i] != '\n' by {
            match ended {
                Some(e) => {
                    if 1 <= i < 1 + started.len() {
                        assert(meta[i] == started[i - 1]);
                    } else if 4 + started.len() <= i < 4 + started.len() + e.len() {
                        assert(meta[i] == e[i - 4 - started.len()]);
                    }
                },
                None => {
                    if 1 <= i < 1 + started.len() {
                        assert(meta[i] == started[i - 1]);
                    }
                },
            }
        }
    }
    lemma_lines_cons(l0, meta + seq!['\n'] + (Seq::<char>::empty() + seq!['\n'] + r));
    lemma_lines_cons(meta, Seq::<char>::empty() + seq!['\n'] + r);
    lemma_lines_cons(Seq::<char>::empty(), r);
    let ls = lines(d);
    assert(ls =~= seq![strip_cr(l0), strip_cr(meta), strip_cr(Seq::<char>::empty())] + lines(r));
    // The title line keeps its `# ` prefix.
    assert(strip_cr(l0).subrange(0, 2) =~= seq!['#', ' ']);
    assert(title_marker() =~= seq!['#', ' ']);
    // The metadata line is `*...*`, untouched by trimming.
    assert(meta.last() == '*');
    assert(strip_cr(meta) == meta);
    assert(trim_start(meta) == meta);
    assert(trim_end(meta) == meta);
    assert(trim(Seq::<char>::empty()) =~= Seq::<char>::empty());
    assert(ls.subrange(3, ls.len() as int) =~= lines(r));
}

/// Reading back a rendered transcript: a `transcript.md` made of the
/// header that `render_transcript_header` writes for a title and its
/// rendered start (and end) time, followed by the lines that
/// `render_transcript_line` writes for `chunks`, parses to one segment
/// per chunk, in order and numbered from 1, with the chunk's speaker
/// label, its start rounded down to the whole second, and its trimmed
/// text. The title, the rendered times and every trimmed text must fit
/// on one line, and every display name must be plain (not empty, with
/// neither `*` nor a line break); without a title the header reads
/// `Untitled session`.
pub proof fn rendered_transcript_reads_back(
    title: Option<Seq<char>>,
    started: Seq<char>,
    ended: Option<Seq<char>>,
    chunks: Seq<AttributedChunk>,
)
    requires
        title matches Some(t) ==> no_newline(t),
        no_newline(started),
        ended matches Some(e) ==> no_newline(e),
        single_line_texts(chunks),
        plain_speakers(chunks),
    ensures
        transcript_parse(header_text(title, started, ended) + transcript_body(chunks))
            == ParseOutcome::Done(read_back(chunks)),
{
    let body = transcript_body(chunks);
    let shown = match title {
        Some(t) => t,
        None => "Untitled session"@,
    };
    reveal_strlit("Untitled session");
    assert(header_text(title, started, ended) == header_text(Some(shown), started, ended));
    lemma_header_lines(shown, started, ended, body);
    lemma_body_lines(chunks);
    let ls = lines(header_text(title, started, ended) + body);
    if chunks.len() > 0 {
        assert(ls[3] == ls.subrange(3, ls.len() as int)[0]);
        assert(ls[3] == body_line(chunks[0]));
        assert(no_newline(trim(chunks[0].chunk.text@)));
        assert(plain_label(chunks[0].speaker));
        lemma_body_line(chunks[0]);
    }
    assert(crate::notes_segments::skip_blank(ls, 3) == 3);
    assert(crate::notes_segments::skip_blank(ls, 2) == 3);
    assert(body_start(ls) == 3);
    assert forall|i: int| 0 <= i < chunks.len() implies ls[3 + i] == body_line(#[trigger] chunks[i]) by {
        assert(ls[3 + i] == ls.subrange(3, ls.len() as int)[i]);
    }
    lemma_parse_body(ls, 3, chunks, 0);
    assert(read_back(chunks).take(0) =~= Seq::<SegmentView>::empty());
}

} // verus!
