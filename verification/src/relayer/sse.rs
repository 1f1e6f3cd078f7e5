//! Framing of the server-sent event stream: events are separated by a blank
//! line, carry a `data: ` prefix, and hold one JSON value each.
use vstd::prelude::*;

verus! {

/// What `std::str::from_utf8` makes of `bytes`: their characters, or `None`
/// where they are not valid UTF-8.
pub uninterp spec fn utf8_decoding(bytes: Seq<u8>) -> Option<Seq<char>>;

/// `std::str::from_utf8`, with the decoded string's characters collected.
#[verifier::external_body]
fn decode_utf8(bytes: &[u8]) -> (r: Option<Vec<char>>)
    ensures
        r is Some <==> utf8_decoding(bytes@) is Some,
        r is Some ==> r->0@ == utf8_decoding(bytes@)->0,
{
    std::str::from_utf8(bytes).ok().map(|s| s.chars().collect())
}

/// Whether `c` has Unicode's `White_Space` property: tab to carriage return,
/// space, next line, no-break space, the Ogham space mark, the spaces from en
/// quad to hair space, the line and paragraph separators, narrow no-break
/// space, medium mathematical space and ideographic space.
pub open spec fn unicode_whitespace(c: char) -> bool {
    let u = c as u32;
    ||| 0x09 <= u <= 0x0d
    ||| u == 0x20
    ||| u == 0x85
    ||| u == 0xa0
    ||| u == 0x1680
    ||| 0x2000 <= u <= 0x200a
    ||| u == 0x2028
    ||| u == 0x2029
    ||| u == 0x202f
    ||| u == 0x205f
    ||| u == 0x3000
}

/// `char::is_whitespace`: whether `c` has the `White_Space` property.
#[verifier::external_body]
fn is_whitespace(c: char) -> (r: bool)
    ensures
        r == unicode_whitespace(c),
{
    c.is_whitespace()
}

/// The index of the first blank line of `buf` at or after `from`: the first `i`
/// with `buf[i]` and `buf[i + 1]` both `\n`.
pub open spec fn blank_line_from(buf: Seq<u8>, from: int) -> Option<int>
    decreases buf.len() - from,
{
    if from < 0 || from + 1 >= buf.len() {
        None
    } else if buf[from] == 10 && buf[from + 1] == 10 {
        Some(from)
    } else {
        blank_line_from(buf, from + 1)
    }
}

/// Whether a blank line starts at `i` of `buf`: `buf[i]` and `buf[i + 1]` are both `\n`.
pub open spec fn is_blank_line(buf: Seq<u8>, i: int) -> bool {
    0 <= i && i + 1 < buf.len() && buf[i] == 10 && buf[i + 1] == 10
}

/// Events end at the first blank line: the blank line found from `from` is a
/// blank line at or after `from` with none between `from` and it, and none is
/// found exactly where no blank line starts at or after `from`.
pub proof fn lemma_blank_line_first(buf: Seq<u8>, from: int)
    requires
        0 <= from,
    ensures
        blank_line_from(buf, from) matches Some(e) ==> from <= e && is_blank_line(buf, e) && forall|i: int|
            from <= i < e ==> !#[trigger] is_blank_line(buf, i),
        blank_line_from(buf, from) is None ==> forall|i: int|
            from <= i ==> !#[trigger] is_blank_line(buf, i),
    decreases buf.len() - from,
{
    if from + 1 < buf.len() && !(buf[from] == 10 && buf[from + 1] == 10) {
        lemma_blank_line_first(buf, from + 1);
        assert forall|i: int| from <= i && (blank_line_from(buf, from) is None || i < blank_line_from(buf, from)->0)
            implies !#[trigger] is_blank_line(buf, i) by {
            if i > from {
            }
        }
    }
}

/// The prefix of each event's data.
pub open spec fn data_prefix() -> Seq<char> {
    seq!['d', 'a', 't', 'a', ':', ' ']
}

/// `s` with every leading `data: ` removed (`str::trim_start_matches`).
pub open spec fn strip_data_prefixes(s: Seq<char>) -> Seq<char>
    decreases s.len(),
{
    if s.len() >= 6 && s.take(6) == data_prefix() {
        strip_data_prefixes(s.skip(6))
    } else {
        s
    }
}

/// `s` without leading whitespace.
pub open spec fn trim_start(s: Seq<char>) -> Seq<char>
    decreases s.len(),
{
    if s.len() > 0 && unicode_whitespace(s[0]) {
        trim_start(s.skip(1))
    } else {
        s
    }
}

/// `s` without trailing whitespace.
pub open spec fn trim_end(s: Seq<char>) -> Seq<char>
    decreases s.len(),
{
    if s.len() > 0 && unicode_whitespace(s.last()) {
        trim_end(s.drop_last())
    } else {
        s
    }
}

/// The data of an event: the prefixes removed, then the whitespace at both ends.
pub open spec fn event_data(s: Seq<char>) -> Seq<char> {
    trim_end(trim_start(strip_data_prefixes(s)))
}

/// The next event in a buffer of the stream.
#[derive(Debug)]
pub enum SseFrame {
    /// No complete event yet: more data is needed and nothing is consumed.
    NeedMoreData,
    /// The event is not valid UTF-8: skip the bytes consumed.
    Skip {
        /// The number of bytes that the event takes, blank line included.
        consumed: usize,
    },
    /// An event with its data.
    Data {
        /// The number of bytes that the event takes, blank line included.
        consumed: usize,
        /// The event's data, ready to be parsed.
        text: Vec<char>,
    },
}

/// Find the first blank line from `from` on.
fn find_blank_line(buf: &[u8]) -> (r: Option<usize>)
    ensures
        r is None <==> blank_line_from(buf@, 0) is None,
        r is Some ==> r->0 == blank_line_from(buf@, 0)->0 && r->0 + 1 < buf@.len(),
        r matches Some(e) ==> is_blank_line(buf@, e as int) && forall|i: int|
            0 <= i < e ==> !#[trigger] is_blank_line(buf@, i),
        r is None ==> forall|i: int| 0 <= i ==> !#[trigger] is_blank_line(buf@, i),
{
    proof {
        lemma_blank_line_first(buf@, 0);
    }
    let mut i: usize = 0;
    while buf.len() > 0 && i < buf.len() - 1
        invariant
            i <= buf@.len(),
            blank_line_from(buf@, 0) == blank_line_from(buf@, i as int),
        decreases buf@.len() - i,
    {
        if buf[i] == 10 && buf[i + 1] == 10 {
            proof {
                assert(blank_line_from(buf@, i as int) == Some(i as int));
                lemma_blank_line_first(buf@, 0);
            }
            return Some(i);
        }
        i = i + 1;
    }
    None
}

fn strip_data_prefixes_exec(s: &Vec<char>) -> (r: Vec<char>)
    ensures
        r@ == strip_data_prefixes(s@),
{
    let mut start: usize = 0;
    assert(s@.skip(0) =~= s@);
    while s.len() - start >= 6 && s[start] == 'd' && s[start + 1] == 'a' && s[start + 2] == 't'
        && s[start + 3] == 'a' && s[start + 4] == ':' && s[start + 5] == ' '
        invariant
            start <= s@.len(),
            strip_data_prefixes(s@) == strip_data_prefixes(s@.skip(start as int)),
        decreases s@.len() - start,
    {
        proof {
            let t = s@.skip(start as int);
            assert(t.take(6) =~= data_prefix());
            assert(t.skip(6) =~= s@.skip(start + 6));
        }
        start = start + 6;
    }
    proof {
        let t = s@.skip(start as int);
        if t.len() >= 6 && t.take(6) == data_prefix() {
            assert(t.take(6)[0] == 'd' && t.take(6)[1] == 'a' && t.take(6)[2] == 't' && t.take(6)[3]
                == 'a' && t.take(6)[4] == ':' && t.take(6)[5] == ' ');
        }
    }
    let mut out: Vec<char> = Vec::new();
    let mut i = start;
    while i < s.len()
        invariant
            start <= i <= s@.len(),
            out@ == s@.subrange(start as int, i as int),
        decreases s@.len() - i,
    {
        out.push(s[i]);
        i = i + 1;
        assert(out@ =~= s@.subrange(start as int, i as int));
    }
    assert(out@ =~= s@.skip(start as int));
    out
}

#[verifier::spinoff_prover]
fn trim_exec(s: &Vec<char>) -> (r: Vec<char>)
    ensures
        r@ == trim_end(trim_start(s@)),
{
    let mut start: usize = 0;
    assert(s@.skip(0) =~= s@);
    while start < s.len() && is_whitespace(s[start])
        invariant
            start <= s@.len(),
            trim_start(s@) == trim_start(s@.skip(start as int)),
        decreases s@.len() - start,
    {
        assert(s@.skip(start as int).skip(1) =~= s@.skip(start + 1));
        start = start + 1;
    }
    let mut end: usize = s.len();
    let ghost t = s@.skip(start as int);
    assert(trim_start(s@) == t);
    while end > start && is_whitespace(s[end - 1])
        invariant
            start <= end <= s@.len(),
            t == s@.skip(start as int),
            trim_end(t) == trim_end(s@.subrange(start as int, end as int)),
        decreases end,
    {
        assert(s@.subrange(start as int, end as int).drop_last() =~= s@.subrange(
            start as int,
            end - 1,
        ));
        end = end - 1;
    }
    let mut out: Vec<char> = Vec::new();
    let mut i = start;
    while i < end
        invariant
            start <= i <= end,
            end <= s@.len(),
            out@ == s@.subrange(start as int, i as int),
        decreases end - i,
    {
        out.push(s[i]);
        i = i + 1;
        assert(out@ =~= s@.subrange(start as int, i as int));
    }
    proof {
        assert(s@.skip(start as int) =~= s@.subrange(start as int, s@.len() as int));
    }
    out
}

/// Frame the next event of the stream held in `buf`.
pub fn sse_frame(buf: &[u8]) -> (r: SseFrame)
    ensures
        blank_line_from(buf@, 0) is None ==> r is NeedMoreData,
        blank_line_from(buf@, 0) matches Some(end) ==> {
            let bytes = buf@.take(end);
            &&& utf8_decoding(bytes) is None ==> r == SseFrame::Skip { consumed: (end + 2) as usize }
            &&& utf8_decoding(bytes) is Some ==> (r matches SseFrame::Data { consumed, text }
                && consumed == end + 2 && text@ == event_data(utf8_decoding(bytes)->0))
        },
{
    let end = match find_blank_line(buf) {
        Some(end) => end,
        None => return SseFrame::NeedMoreData,
    };
    let mut bytes: Vec<u8> = Vec::new();
    let mut i: usize = 0;
    while i < end
        invariant
            i <= end,
            end + 1 < buf@.len(),
            bytes@ == buf@.take(i as int),
        decreases end - i,
    {
        bytes.push(buf[i]);
        i = i + 1;
        assert(bytes@ =~= buf@.take(i as int));
    }
    let len = buf.len();
    assert(end + 1 < len);
    match decode_utf8(bytes.as_slice()) {
        None => SseFrame::Skip { consumed: end + 2 },
        Some(chars) => {
            let stripped = strip_data_prefixes_exec(&chars);
            let text = trim_exec(&stripped);
            SseFrame::Data { consumed: end + 2, text }
        },
    }
}

/// Whether event data that failed to parse is the keep-alive signal `:`,
/// which is skipped, rather than an error in the stream.
pub fn is_keep_alive(text: &Vec<char>) -> (r: bool)
    ensures
        r == (text@ == seq![':']),
{
    let r = text.len() == 1 && text[0] == ':';
    proof {
        if text@.len() == 1 && text@[0] == ':' {
            assert(text@ =~= seq![':']);
        }
    }
    r
}

/// What an event of the stream comes to once its data was parsed.
#[derive(Debug)]
pub enum SseOutcome<T> {
    /// The data parsed into an item.
    Item(T),
    /// The data did not parse, but was the keep-alive signal: nothing to yield.
    KeepAlive,
    /// The data did not parse: the stream is in error, with this data.
    StreamError,
}

/// Decoder of the node's event stream into items of type `T`.
pub struct SseDecoder<T>(core::marker::PhantomData<T>);

impl<T> SseDecoder<T> {
    /// A new decoder.
    pub fn new() -> Self {
        SseDecoder(core::marker::PhantomData)
    }

    /// The next event of the buffer: see [`sse_frame`].
    pub fn frame(&self, buf: &[u8]) -> (r: SseFrame)
        ensures
            blank_line_from(buf@, 0) is None ==> r is NeedMoreData,
            blank_line_from(buf@, 0) matches Some(end) ==> {
                let bytes = buf@.take(end);
                &&& utf8_decoding(bytes) is None ==> r == SseFrame::Skip { consumed: (end + 2) as usize }
                &&& utf8_decoding(bytes) is Some ==> (r matches SseFrame::Data { consumed, text }
                    && consumed == end + 2 && text@ == event_data(utf8_decoding(bytes)->0))
            },
    {
        sse_frame(buf)
    }

    /// What an event with data `text` comes to, given what parsing `text`
    /// gave: the item where it parsed, else nothing for the keep-alive signal,
    /// else a stream error.
    pub fn outcome(&self, text: &Vec<char>, parsed: Option<T>) -> (r: SseOutcome<T>)
        ensures
            parsed matches Some(item) ==> r == SseOutcome::Item(item),
            parsed is None && text@ == seq![':'] ==> r is KeepAlive,
            parsed is None && text@ != seq![':'] ==> r is StreamError,
    {
        match parsed {
            Some(item) => SseOutcome::Item(item),
            None => {
                if is_keep_alive(text) {
                    SseOutcome::KeepAlive
                } else {
                    SseOutcome::StreamError
                }
            },
        }
    }
}

} // verus!
