//! Line framing: accumulates decoded text in a pending buffer and extracts
//! the first complete newline-terminated line per feed call.
use vstd::prelude::*;

verus! {

/// Which characters the framer strips from the ends of an extracted line.
pub open spec fn is_space_char(c: char) -> bool {
    c == ' ' || c == '\t' || c == '\r' || c == '\n'
}

/// Executable counterpart of `is_space_char`.
pub fn is_space(c: char) -> (r: bool)
    ensures
        r == is_space_char(c),
{
    c == ' ' || c == '\t' || c == '\r' || c == '\n'
}

/// True if `s` holds at least one newline character.
pub open spec fn has_newline(s: Seq<char>) -> bool {
    exists|i: int| 0 <= i < s.len() && s[i] == '\n'
}

/// Index of the first newline in `s` (meaningful only when `has_newline(s)`).
pub open spec fn first_newline(s: Seq<char>) -> int
    decreases s.len(),
{
    if s.len() == 0 {
        0
    } else if s[0] == '\n' {
        0
    } else {
        1 + first_newline(s.skip(1))
    }
}

/// How many newline characters `s` holds.
pub open spec fn newline_count(s: Seq<char>) -> nat
    decreases s.len(),
{
    if s.len() == 0 {
        0
    } else {
        (if s[0] == '\n' {
            1nat
        } else {
            0nat
        }) + newline_count(s.skip(1))
    }
}

/// `s` with leading space characters removed.
pub open spec fn trim_start_spec(s: Seq<char>) -> Seq<char>
    decreases s.len(),
{
    if s.len() > 0 && is_space_char(s[0]) {
        trim_start_spec(s.skip(1))
    } else {
        s
    }
}

/// `s` with trailing space characters removed.
pub open spec fn trim_end_spec(s: Seq<char>) -> Seq<char>
    decreases s.len(),
{
    if s.len() > 0 && is_space_char(s[s.len() - 1]) {
        trim_end_spec(s.take(s.len() - 1))
    } else {
        s
    }
}

/// `s` with space characters removed from both ends.
pub open spec fn trim_spec(s: Seq<char>) -> Seq<char> {
    trim_end_spec(trim_start_spec(s))
}

/// The pending-buffer content after one extraction pass over `s`:
/// everything past the first newline, or all of `s` when it has none.
pub open spec fn feed_spec_buf(s: Seq<char>) -> Seq<char> {
    if has_newline(s) {
        s.skip(first_newline(s) + 1)
    } else {
        s
    }
}

/// The raw (untrimmed) line one extraction pass over `s` surfaces, if any.
pub open spec fn feed_spec_line(s: Seq<char>) -> Option<Seq<char>> {
    if has_newline(s) {
        Some(s.take(first_newline(s)))
    } else {
        None
    }
}

pub proof fn lemma_first_newline_props(s: Seq<char>)
    requires
        has_newline(s),
    ensures
        0 <= first_newline(s) < s.len(),
        s[first_newline(s)] == '\n',
        forall|j: int| 0 <= j < first_newline(s) ==> s[j] != '\n',
    decreases s.len(),
{
    if s.len() == 0 {
    } else if s[0] == '\n' {
    } else {
        assert(has_newline(s.skip(1))) by {
            let i = choose|i: int| 0 <= i < s.len() && s[i] == '\n';
            assert(s.skip(1)[i - 1] == '\n');
        }
        lemma_first_newline_props(s.skip(1));
        assert forall|j: int| 0 <= j < first_newline(s) implies s[j] != '\n' by {
            if j > 0 {
                assert(s.skip(1)[j - 1] != '\n');
            }
        }
    }
}

pub proof fn lemma_first_newline_at(s: Seq<char>, i: int)
    requires
        0 <= i < s.len(),
        s[i] == '\n',
        forall|j: int| 0 <= j < i ==> s[j] != '\n',
    ensures
        has_newline(s),
        first_newline(s) == i,
    decreases s.len(),
{
    assert(has_newline(s));
    if i == 0 {
    } else {
        assert forall|j: int| 0 <= j < i - 1 implies s.skip(1)[j] != '\n' by {
            assert(s.skip(1)[j] == s[j + 1]);
        }
        assert(s.skip(1)[i - 1] == '\n');
        lemma_first_newline_at(s.skip(1), i - 1);
    }
}

/// The concatenation of a sequence of decoded chunks.
pub open spec fn concat_chunks(chunks: Seq<Seq<char>>) -> Seq<char>
    decreases chunks.len(),
{
    if chunks.len() == 0 {
        Seq::empty()
    } else {
        chunks[0] + concat_chunks(chunks.skip(1))
    }
}

/// The concatenation of a sequence of raw lines, a newline after each.
pub open spec fn glue_lines(lines: Seq<Seq<char>>) -> Seq<char>
    decreases lines.len(),
{
    if lines.len() == 0 {
        Seq::empty()
    } else {
        lines[0] + seq!['\n'] + glue_lines(lines.skip(1))
    }
}

/// The buffer content after feeding the decoded chunks one by one into a
/// framer whose buffer starts as `buf`.
pub open spec fn run_buf(buf: Seq<char>, chunks: Seq<Seq<char>>) -> Seq<char>
    decreases chunks.len(),
{
    if chunks.len() == 0 {
        buf
    } else {
        run_buf(feed_spec_buf(buf + chunks[0]), chunks.skip(1))
    }
}

/// The raw (untrimmed) lines surfaced, in order, by feeding the decoded
/// chunks one by one into a framer whose buffer starts as `buf`.
pub open spec fn run_lines(buf: Seq<char>, chunks: Seq<Seq<char>>) -> Seq<Seq<char>>
    decreases chunks.len(),
{
    if chunks.len() == 0 {
        Seq::empty()
    } else {
        let s = buf + chunks[0];
        let rest = run_lines(feed_spec_buf(s), chunks.skip(1));
        match feed_spec_line(s) {
            Some(raw) => seq![raw] + rest,
            None => rest,
        }
    }
}

proof fn lemma_seq_assoc(a: Seq<char>, b: Seq<char>, c: Seq<char>)
    ensures
        (a + b) + c == a + (b + c),
{
    assert((a + b) + c =~= a + (b + c));
}

proof fn lemma_feed_decomposition(s: Seq<char>)
    requires
        has_newline(s),
    ensures
        s.take(first_newline(s)) + seq!['\n'] + feed_spec_buf(s) == s,
{
    lemma_first_newline_props(s);
    let i = first_newline(s);
    assert(s.take(i) + seq!['\n'] + s.skip(i + 1) =~= s);
}

/// Framing is lossless: feeding any chunks in sequence, the raw extracted
/// lines glued back with their newlines, followed by the final buffer
/// content, reproduce the initial buffer plus all the decoded input.
pub proof fn lemma_framing_lossless(buf: Seq<char>, chunks: Seq<Seq<char>>)
    ensures
        glue_lines(run_lines(buf, chunks)) + run_buf(buf, chunks) == buf + concat_chunks(chunks),
    decreases chunks.len(),
{
    if chunks.len() == 0 {
        assert(glue_lines(run_lines(buf, chunks)) + run_buf(buf, chunks) =~= buf
            + concat_chunks(chunks));
    } else {
        let s = buf + chunks[0];
        let b1 = feed_spec_buf(s);
        lemma_framing_lossless(b1, chunks.skip(1));
        match feed_spec_line(s) {
            Some(raw) => {
                let rest = run_lines(b1, chunks.skip(1));
                assert((seq![raw] + rest).skip(1) =~= rest);
                assert(glue_lines(seq![raw] + rest) == raw + seq!['\n'] + glue_lines(rest));
                lemma_feed_decomposition(s);
                assert(glue_lines(run_lines(buf, chunks)) == raw + seq!['\n'] + glue_lines(rest));
                assert(run_buf(buf, chunks) == run_buf(b1, chunks.skip(1)));
                let tail = concat_chunks(chunks.skip(1));
                assert(glue_lines(rest) + run_buf(b1, chunks.skip(1)) == b1 + tail);
                lemma_seq_assoc(raw + seq!['\n'], glue_lines(rest), run_buf(b1, chunks.skip(1)));
                lemma_seq_assoc(raw + seq!['\n'], b1, tail);
                assert((raw + seq!['\n'] + b1) + tail == s + tail);
                lemma_seq_assoc(buf, chunks[0], tail);
                assert(concat_chunks(chunks) == chunks[0] + tail);
            },
            None => {
                assert(glue_lines(run_lines(buf, chunks)) + run_buf(buf, chunks) =~= buf
                    + concat_chunks(chunks));
            },
        }
    }
}

proof fn lemma_count_concat(a: Seq<char>, b: Seq<char>)
    ensures
        newline_count(a + b) == newline_count(a) + newline_count(b),
    decreases a.len(),
{
    if a.len() == 0 {
        assert(a + b =~= b);
    } else {
        assert((a + b).skip(1) =~= a.skip(1) + b);
        lemma_count_concat(a.skip(1), b);
    }
}

proof fn lemma_count_zero_iff(s: Seq<char>)
    ensures
        newline_count(s) == 0 <==> !has_newline(s),
    decreases s.len(),
{
    if s.len() == 0 {
    } else {
        lemma_count_zero_iff(s.skip(1));
        if s[0] == '\n' {
            assert(has_newline(s));
        } else {
            if has_newline(s) {
                let i = choose|i: int| 0 <= i < s.len() && s[i] == '\n';
                assert(s.skip(1)[i - 1] == '\n');
                assert(has_newline(s.skip(1)));
            }
            if has_newline(s.skip(1)) {
                let i = choose|i: int| 0 <= i < s.skip(1).len() && s.skip(1)[i] == '\n';
                assert(s[i + 1] == '\n');
                assert(has_newline(s));
            }
        }
    }
}

/// One extraction pass over a buffer with a newline removes exactly that one
/// newline: the surfaced raw line holds none, and the remaining buffer holds
/// one fewer than the whole.
pub proof fn lemma_feed_extracts_one(s: Seq<char>)
    requires
        has_newline(s),
    ensures
        newline_count(s.take(first_newline(s))) == 0,
        newline_count(feed_spec_buf(s)) == newline_count(s) - 1,
{
    lemma_first_newline_props(s);
    let i = first_newline(s);
    let head = s.take(i);
    assert forall|j: int| 0 <= j < head.len() implies head[j] != '\n' by {
        assert(head[j] == s[j]);
    }
    assert(!has_newline(head));
    lemma_count_zero_iff(head);
    lemma_feed_decomposition(s);
    lemma_count_concat(head + seq!['\n'], feed_spec_buf(s));
    lemma_count_concat(head, seq!['\n']);
    let nl = seq!['\n'];
    assert(nl.skip(1) =~= Seq::<char>::empty());
    assert(newline_count(Seq::<char>::empty()) == 0);
    assert(nl[0] == '\n');
    assert(newline_count(nl) == 1);
}

proof fn lemma_trim_start_props(s: Seq<char>)
    requires
        !has_newline(s),
    ensures
        !has_newline(trim_start_spec(s)),
        trim_start_spec(s).len() > 0 ==> !is_space_char(trim_start_spec(s)[0]),
    decreases s.len(),
{
    if s.len() > 0 && is_space_char(s[0]) {
        let t = s.skip(1);
        if has_newline(t) {
            let i = choose|i: int| 0 <= i < t.len() && t[i] == '\n';
            assert(s[i + 1] == '\n');
        }
        lemma_trim_start_props(t);
    }
}

proof fn lemma_trim_end_props(s: Seq<char>)
    requires
        !has_newline(s),
    ensures
        !has_newline(trim_end_spec(s)),
        trim_end_spec(s).len() > 0 ==> !is_space_char(trim_end_spec(s)[trim_end_spec(s).len() - 1]),
        trim_end_spec(s).len() > 0 ==> trim_end_spec(s)[0] == s[0],
        trim_end_spec(s).len() > 0 ==> s.len() > 0,
    decreases s.len(),
{
    if s.len() > 0 && is_space_char(s[s.len() - 1]) {
        let t = s.take(s.len() - 1);
        if has_newline(t) {
            let i = choose|i: int| 0 <= i < t.len() && t[i] == '\n';
            assert(s[i] == '\n');
        }
        lemma_trim_end_props(t);
    }
}

/// A line holds no newline, and no space character at either end.
pub open spec fn line_wf(s: Seq<char>) -> bool {
    &&& !has_newline(s)
    &&& s.len() > 0 ==> !is_space_char(s[0]) && !is_space_char(s[s.len() - 1])
}

/// Trimming any text without a newline yields a well-formed line.
pub proof fn lemma_trim_wf(s: Seq<char>)
    requires
        !has_newline(s),
    ensures
        line_wf(trim_spec(s)),
{
    lemma_trim_start_props(s);
    lemma_trim_end_props(trim_start_spec(s));
}

/// A feed whose combined buffer and decoded chunk hold no newline produces
/// no line and leaves everything buffered.
pub proof fn lemma_no_newline_no_line(buf: Seq<char>, chunk: Seq<char>)
    requires
        !has_newline(buf),
        !has_newline(chunk),
    ensures
        feed_spec_line(buf + chunk) is None,
        feed_spec_buf(buf + chunk) == buf + chunk,
{
    let s = buf + chunk;
    if has_newline(s) {
        let i = choose|i: int| 0 <= i < s.len() && s[i] == '\n';
        if i < buf.len() {
            assert(buf[i] == '\n');
        } else {
            assert(chunk[i - buf.len()] == '\n');
        }
    }
}

/// A feed whose combined buffer and decoded chunk hold exactly one newline
/// produces exactly one line; the remainder stays buffered and holds no
/// further complete line.
pub proof fn lemma_single_newline_single_line(buf: Seq<char>, chunk: Seq<char>)
    requires
        newline_count(buf + chunk) == 1,
    ensures
        feed_spec_line(buf + chunk) is Some,
        !has_newline(feed_spec_buf(buf + chunk)),
{
    let s = buf + chunk;
    lemma_count_zero_iff(s);
    lemma_feed_extracts_one(s);
    lemma_count_zero_iff(feed_spec_buf(s));
}

/// A feed whose combined buffer and decoded chunk hold two or more newlines
/// still produces exactly one line per invocation; the remaining complete
/// lines stay buffered, so the new buffer still holds a newline.
pub proof fn lemma_multiple_newlines_stay_buffered(buf: Seq<char>, chunk: Seq<char>)
    requires
        newline_count(buf + chunk) >= 2,
    ensures
        feed_spec_line(buf + chunk) is Some,
        has_newline(feed_spec_buf(buf + chunk)),
        newline_count(feed_spec_buf(buf + chunk)) == newline_count(buf + chunk) - 1,
{
    let s = buf + chunk;
    lemma_count_zero_iff(s);
    lemma_feed_extracts_one(s);
    lemma_count_zero_iff(feed_spec_buf(s));
}

/// A growable text buffer holding bytes received but not yet resolved into a
/// complete line.
pub struct PendingBuffer {
    text: Vec<char>,
}

impl View for PendingBuffer {
    type V = Seq<char>;

    closed spec fn view(&self) -> Seq<char> {
        self.text@
    }
}

impl PendingBuffer {
    pub fn new() -> (r: Self)
        ensures
            r@ == Seq::<char>::empty(),
    {
        PendingBuffer { text: Vec::new() }
    }

    pub fn as_chars(&self) -> (r: &Vec<char>)
        ensures
            r@ == self@,
    {
        &self.text
    }
}

/// A trimmed text message extracted from the pending buffer.
pub struct Line {
    text: Vec<char>,
}

impl View for Line {
    type V = Seq<char>;

    closed spec fn view(&self) -> Seq<char> {
        self.text@
    }
}

impl Line {
    pub fn new(text: Vec<char>) -> (r: Self)
        ensures
            r@ == text@,
    {
        Line { text }
    }

    pub fn as_chars(&self) -> (r: &Vec<char>)
        ensures
            r@ == self@,
    {
        &self.text
    }

    pub fn into_chars(self) -> (r: Vec<char>)
        ensures
            r@ == self@,
    {
        self.text
    }
}

/// The decoded text of a byte sequence, as lossy UTF-8 decoding yields it.
pub uninterp spec fn lossy_of(b: Seq<u8>) -> Seq<char>;

/// Whether every byte of `b` is ASCII.
pub open spec fn all_ascii_bytes(b: Seq<u8>) -> bool {
    forall|i: int| 0 <= i < b.len() ==> b[i] < 128
}

/// The characters an ASCII byte sequence stands for, one per byte.
pub open spec fn chars_of_ascii(b: Seq<u8>) -> Seq<char> {
    Seq::new(b.len(), |i: int| b[i] as char)
}

/// Relies on `String::from_utf8_lossy`: the decoded text depends on the bytes
/// alone; bytes that are valid UTF-8 (in particular, ASCII bytes) decode to
/// the identical characters, and undecodable sequences are replaced.
#[verifier::external_body]
fn lossy_decode(data: &[u8]) -> (r: Vec<char>)
    ensures
        r@ == lossy_of(data@),
        all_ascii_bytes(data@) ==> r@ == chars_of_ascii(data@),
{
    String::from_utf8_lossy(data).chars().collect()
}

/// Remove space characters from both ends of `v`.
pub fn trim_chars(v: &Vec<char>) -> (r: Vec<char>)
    ensures
        r@ == trim_spec(v@),
{
    let n = v.len();
    let mut start: usize = 0;
    while start < n && is_space(v[start])
        invariant
            n == v@.len(),
            0 <= start <= n,
            forall|j: int| 0 <= j < start ==> is_space_char(v@[j]),
        decreases n - start,
    {
        start = start + 1;
    }
    let mut end: usize = n;
    while end > start && is_space(v[end - 1])
        invariant
            n == v@.len(),
            start <= end <= n,
            forall|j: int| end <= j < n ==> is_space_char(v@[j]),
        decreases end,
    {
        end = end - 1;
    }
    let mut out: Vec<char> = Vec::new();
    let mut k: usize = start;
    while k < end
        invariant
            n == v@.len(),
            start <= k <= end <= n,
            out@ == v@.subrange(start as int, k as int),
        decreases end - k,
    {
        out.push(v[k]);
        proof {
            assert(out@ =~= v@.subrange(start as int, k + 1 as int));
        }
        k = k + 1;
    }
    proof {
        lemma_trim_characterization(v@, start as int, end as int);
    }
    out
}

proof fn lemma_trim_start_at(s: Seq<char>, a: int)
    requires
        0 <= a <= s.len(),
        forall|j: int| 0 <= j < a ==> is_space_char(s[j]),
        a == s.len() || !is_space_char(s[a]),
    ensures
        trim_start_spec(s) == s.skip(a),
    decreases a,
{
    if a == 0 {
        assert(s.skip(0) =~= s);
    } else {
        assert(is_space_char(s[0]));
        assert forall|j: int| 0 <= j < a - 1 implies is_space_char(s.skip(1)[j]) by {
            assert(s.skip(1)[j] == s[j + 1]);
        }
        if a < s.len() {
            assert(s.skip(1)[a - 1] == s[a]);
        }
        lemma_trim_start_at(s.skip(1), a - 1);
        assert(s.skip(1).skip(a - 1) =~= s.skip(a));
    }
}

proof fn lemma_trim_end_at(s: Seq<char>, b: int)
    requires
        0 <= b <= s.len(),
        forall|j: int| b <= j < s.len() ==> is_space_char(s[j]),
        b == 0 || !is_space_char(s[b - 1]),
    ensures
        trim_end_spec(s) == s.take(b),
    decreases s.len(),
{
    if b == s.len() {
        assert(s.take(b) =~= s);
    } else {
        assert(is_space_char(s[s.len() - 1]));
        let t = s.take(s.len() - 1);
        assert forall|j: int| b <= j < t.len() implies is_space_char(t[j]) by {
            assert(t[j] == s[j]);
        }
        if b > 0 {
            assert(t[b - 1] == s[b - 1]);
        }
        lemma_trim_end_at(t, b);
        assert(t.take(b) =~= s.take(b));
    }
}

proof fn lemma_trim_characterization(s: Seq<char>, a: int, b: int)
    requires
        0 <= a <= b <= s.len(),
        forall|j: int| 0 <= j < a ==> is_space_char(s[j]),
        forall|j: int| b <= j < s.len() ==> is_space_char(s[j]),
        a == b || (!is_space_char(s[a]) && !is_space_char(s[b - 1])),
    ensures
        trim_spec(s) == s.subrange(a, b),
{
    if a == b {
        assert(forall|j: int| 0 <= j < s.len() ==> is_space_char(#[trigger] s[j]));
        lemma_trim_start_at(s, s.len() as int);
        let t = s.skip(s.len() as int);
        assert(t.len() == 0);
        lemma_trim_end_at(t, 0);
        assert(t.take(0) =~= s.subrange(a, b));
    } else {
        lemma_trim_start_at(s, a);
        let t = s.skip(a);
        assert forall|j: int| b - a <= j < t.len() implies is_space_char(t[j]) by {
            assert(t[j] == s[j + a]);
        }
        assert(t[b - a - 1] == s[b - 1]);
        lemma_trim_end_at(t, b - a);
        assert(t.take(b - a) =~= s.subrange(a, b));
    }
}

/// Feed one raw chunk into the pending buffer and extract at most one line.
///
/// The chunk is decoded lossily, appended to `message`, and the buffer is
/// scanned for its first newline: if one is present, the prefix before it is
/// surfaced as a trimmed `Line` and only the text after that newline stays
/// buffered; otherwise the buffer keeps everything and no line is produced.
pub fn handle_serial_data(data: &[u8], message: &mut PendingBuffer) -> (r: Option<Line>)
    ensures
        ({
            let s = old(message)@ + lossy_of(data@);
            &&& final(message)@ == feed_spec_buf(s)
            &&& (r is Some <==> has_newline(s))
            &&& (r matches Some(l) ==> feed_spec_line(s) matches Some(raw) && l@ == trim_spec(raw))
        }),
        r matches Some(l) ==> line_wf(l@),
        all_ascii_bytes(data@) ==> lossy_of(data@) == chars_of_ascii(data@),
{
    let ghost s = message@ + lossy_of(data@);
    let mut decoded = lossy_decode(data);
    message.text.append(&mut decoded);
    assert(message.text@ == s);
    let n = message.text.len();
    let mut i: usize = 0;
    while i < n && message.text[i] != '\n'
        invariant
            n == message.text@.len(),
            0 <= i <= n,
            forall|j: int| 0 <= j < i ==> message.text@[j] != '\n',
        decreases n - i,
    {
        i = i + 1;
    }
    if i == n {
        proof {
            assert(!has_newline(s));
        }
        None
    } else {
        proof {
            lemma_first_newline_at(s, i as int);
        }
        let rest = message.text.split_off(i + 1);
        message.text.truncate(i);
        proof {
            assert(message.text@ =~= s.take(i as int));
        }
        let trimmed = trim_chars(&message.text);
        message.text = rest;
        proof {
            assert(message@ =~= s.skip(i + 1));
            assert(trimmed@ == trim_spec(s.take(i as int)));
            let head = s.take(i as int);
            assert forall|j: int| 0 <= j < head.len() implies head[j] != '\n' by {
                assert(head[j] == s[j]);
            }
            assert(!has_newline(head));
            lemma_trim_wf(head);
        }
        Some(Line { text: trimmed })
    }
}

} // verus!
