//! The firmware identification exchange: the `info` command and its answer.

use vstd::prelude::*;
use vstd::utf8::*;

use crate::csi::ChipVariant;
use crate::models::{DeviceInfo, InfoText};
use crate::text;

verus! {

/// What opens the identification block; the firmware's version follows.
pub open spec fn magic() -> Seq<char> {
    "ESP-CSI-CLI/"@
}

/// What closes the identification block.
pub open spec fn sentinel() -> Seq<char> {
    "END-INFO"@
}

/// Distinguishes "firmware-not-present / parse-failure" from "the link itself
/// died" so the caller can decide whether to surface a result or to reconnect.
#[derive(Debug)]
pub enum InfoExchangeError {
    /// Logical failure: magic prefix never seen, timed out, or parse error.
    /// Connection is still healthy.
    Soft(String),
    /// I/O failure: connection is broken; the outer loop should reconnect.
    Hard(String),
}

/// What an [`InfoExchangeError`] says.
#[verifier::ext_equal]
pub enum ErrorText {
    Soft(Seq<char>),
    Hard(Seq<char>),
}

impl View for InfoExchangeError {
    type V = ErrorText;

    open spec fn view(&self) -> ErrorText {
        match *self {
            InfoExchangeError::Soft(m) => ErrorText::Soft(m@),
            InfoExchangeError::Hard(m) => ErrorText::Hard(m@),
        }
    }
}

/// What an error says.
pub open spec fn error_words(e: ErrorText) -> Seq<char> {
    match e {
        ErrorText::Soft(m) => m,
        ErrorText::Hard(m) => m,
    }
}

impl InfoExchangeError {
    pub fn message(&self) -> (r: &str)
        ensures
            r@ == error_words(self@),
    {
        match self {
            InfoExchangeError::Soft(m) => m.as_str(),
            InfoExchangeError::Hard(m) => m.as_str(),
        }
    }
}

// ── The block ─────────────────────────────────────────────────────────────

/// The lines of a text, without the white space around them.
pub open spec fn trimmed_lines(t: Seq<char>) -> Seq<Seq<char>> {
    let parts = text::split(t, '\n');
    Seq::new(parts.len(), |i: int| text::trimmed(parts[i]))
}

/// The first line at or after `from` that opens a block; the number of lines where
/// there is none.
pub open spec fn magic_at(lines: Seq<Seq<char>>, from: int) -> int
    decreases lines.len() - from,
{
    if from >= lines.len() {
        lines.len() as int
    } else if text::begins(lines[from], magic()) {
        from
    } else {
        magic_at(lines, from + 1)
    }
}

/// The first line at or after `from` that closes a block; the number of lines
/// where there is none.
pub open spec fn sentinel_at(lines: Seq<Seq<char>>, from: int) -> int
    decreases lines.len() - from,
{
    if from >= lines.len() {
        lines.len() as int
    } else if lines[from] == sentinel() {
        from
    } else {
        sentinel_at(lines, from + 1)
    }
}

/// The parts that are not blank, without the white space around them.
pub open spec fn nonblank(parts: Seq<Seq<char>>) -> Seq<Seq<char>>
    decreases parts.len(),
{
    if parts.len() == 0 {
        Seq::empty()
    } else if text::trimmed(parts.last()).len() > 0 {
        nonblank(parts.drop_last()).push(text::trimmed(parts.last()))
    } else {
        nonblank(parts.drop_last())
    }
}

/// A comma-separated list.
pub open spec fn comma_list(v: Seq<char>) -> Seq<Seq<char>> {
    nonblank(text::split(v, ','))
}

/// A block with one more line read; a later line with the same key wins, and
/// lines that are not understood say nothing.
pub open spec fn with_line(info: InfoText, line: Seq<char>) -> InfoText {
    match text::split_once(line, '=') {
        None => info,
        Some((k, v)) => if k == "name"@ {
            InfoText { name: Some(v), ..info }
        } else if k == "version"@ {
            InfoText { version: Some(v), ..info }
        } else if k == "chip"@ {
            InfoText { chip: Some(v), ..info }
        } else if k == "mac"@ {
            InfoText { mac: Some(v), ..info }
        } else if k == "protocol"@ {
            InfoText { protocol: text::u32_of(v), ..info }
        } else if k == "features"@ {
            InfoText { features: comma_list(v), ..info }
        } else {
            info
        },
    }
}

/// A block with the lines `from` to `to` read.
pub open spec fn with_lines(info: InfoText, lines: Seq<Seq<char>>, from: int, to: int) -> InfoText
    decreases to - from,
{
    if to <= from {
        info
    } else {
        with_line(with_lines(info, lines, from, to - 1), lines[to - 1])
    }
}

/// A block of which only the opening line was read.
pub open spec fn opened(line: Seq<char>) -> InfoText {
    InfoText {
        banner_version: line.skip(magic().len() as int),
        name: None,
        version: None,
        chip: None,
        mac: None,
        protocol: None,
        features: Seq::empty(),
    }
}

/// What a text identifies, or why it identifies nothing.
pub open spec fn parsed_info(t: Seq<char>) -> Result<InfoText, Seq<char>> {
    let lines = trimmed_lines(t);
    let start = magic_at(lines, 0);
    let end = sentinel_at(lines, start);
    if start >= lines.len() {
        Err("info magic prefix 'ESP-CSI-CLI/' not seen — firmware is not esp-csi-cli-rs"@)
    } else if end >= lines.len() {
        Err("END-INFO sentinel not seen in info block"@)
    } else {
        Ok(with_lines(opened(lines[start]), lines, start + 1, end))
    }
}

/// A parsed block, as text.
pub open spec fn info_view(r: Result<DeviceInfo, String>) -> Result<InfoText, Seq<char>> {
    match r {
        Ok(i) => Ok(i@),
        Err(e) => Err(e@),
    }
}

fn lines_of(t: &str) -> (r: Vec<String>)
    ensures
        text::texts(r@) == trimmed_lines(t@),
{
    let parts = text::split_text(t, '\n');
    let mut out: Vec<String> = Vec::new();
    let mut i: usize = 0;
    while i < parts.len()
        invariant
            i <= parts@.len(),
            text::texts(parts@) == text::split(t@, '\n'),
            out@.len() == i,
            forall|k: int| 0 <= k < i ==> (#[trigger] out@[k])@ == trimmed_lines(t@)[k],
        decreases parts@.len() - i,
    {
        assert(text::texts(parts@)[i as int] == parts@[i as int]@);
        out.push(text::trim_text(parts[i].as_str()));
        i += 1;
    }
    assert(text::texts(parts@).len() == parts@.len());
    assert(text::texts(out@) =~= trimmed_lines(t@));
    out
}

fn list_of(v: &str) -> (r: Vec<String>)
    ensures
        text::texts(r@) == comma_list(v@),
{
    let parts = text::split_text(v, ',');
    let ghost all = text::split(v@, ',');
    let mut out: Vec<String> = Vec::new();
    let mut i: usize = 0;
    assert(all.take(0) =~= Seq::empty());
    assert(text::texts(out@) =~= Seq::empty());
    while i < parts.len()
        invariant
            i <= parts@.len(),
            text::texts(parts@) == all,
            text::texts(out@) == nonblank(all.take(i as int)),
        decreases parts@.len() - i,
    {
        let ghost so_far = all.take(i + 1);
        assert(text::texts(parts@).len() == parts@.len());
        assert(so_far.drop_last() =~= all.take(i as int));
        assert(so_far.last() == parts@[i as int]@);
        let part = text::trim_text(parts[i].as_str());
        let chars = text::chars_of(part.as_str());
        if chars.len() > 0 {
            let ghost before = text::texts(out@);
            let ghost added = part@;
            out.push(part);
            assert(text::texts(out@) =~= before.push(added));
        }
        i += 1;
    }
    assert(text::texts(parts@).len() == parts@.len());
    assert(all.take(i as int) =~= all);
    out
}

fn read_line(info: &mut DeviceInfo, line: &str)
    ensures
        final(info)@ == with_line(old(info)@, line@),
{
    if let Some((k, v)) = text::split_once_text(line, '=') {
        let key = k.as_str();
        if text::same(key, "name") {
            info.name = Some(v);
        } else if text::same(key, "version") {
            info.version = Some(v);
        } else if text::same(key, "chip") {
            info.chip = Some(v);
        } else if text::same(key, "mac") {
            info.mac = Some(v);
        } else if text::same(key, "protocol") {
            info.protocol = text::parse_u32(v.as_str());
        } else if text::same(key, "features") {
            info.features = list_of(v.as_str());
        }
    }
}

/// Parse the firmware-identification block that the `info` command prints. The
/// block is delimited by `ESP-CSI-CLI/<version>` (start) and `END-INFO` (end), with
/// `key=value` lines in between.
pub fn parse_info_text(t: &str) -> (r: Result<DeviceInfo, String>)
    ensures
        info_view(r) == parsed_info(t@),
{
    let lines = lines_of(t);
    let ghost all = trimmed_lines(t@);
    let n: usize = lines.len();
    assert(all.len() == n) by {
        assert(text::texts(lines@).len() == lines@.len());
    }
    let mut start: usize = 0;
    while start < n && !text::begins_with(lines[start].as_str(), "ESP-CSI-CLI/")
        invariant
            start <= n,
            n == lines@.len(),
            n == all.len(),
            text::texts(lines@) == all,
            magic_at(all, 0) == magic_at(all, start as int),
        decreases n - start,
    {
        assert(all[start as int] == lines@[start as int]@);
        start += 1;
    }
    if start < n {
        assert(all[start as int] == lines@[start as int]@);
    } else {
        return Err(
            "info magic prefix 'ESP-CSI-CLI/' not seen — firmware is not esp-csi-cli-rs".to_owned(),
        );
    }
    let mut end: usize = start;
    while end < n && !text::same(lines[end].as_str(), "END-INFO")
        invariant
            start <= end <= n,
            n == lines@.len(),
            n == all.len(),
            text::texts(lines@) == all,
            sentinel_at(all, start as int) == sentinel_at(all, end as int),
        decreases n - end,
    {
        assert(all[end as int] == lines@[end as int]@);
        end += 1;
    }
    if end < n {
        assert(all[end as int] == lines@[end as int]@);
    } else {
        return Err("END-INFO sentinel not seen in info block".to_owned());
    }
    proof {
        reveal_strlit("ESP-CSI-CLI/");
        reveal_strlit("END-INFO");
    }
    let first = text::chars_of(lines[start].as_str());
    assert(first@ == all[start as int]);
    assert(start != end) by {
        if start == end {
            assert(all[start as int].take(magic().len() as int)[0] == all[start as int][0]);
            assert(sentinel()[1] == 'N');
            assert(magic()[1] == 'S');
            assert(all[start as int].take(magic().len() as int)[1] == all[start as int][1]);
        }
    }
    let banner_version = text::string_of(&first, 12, first.len());
    assert(banner_version@ =~= all[start as int].skip(magic().len() as int));
    let mut info = DeviceInfo {
        banner_version,
        name: None,
        version: None,
        chip: None,
        mac: None,
        protocol: None,
        features: Vec::new(),
    };
    assert(text::texts(info.features@) =~= Seq::empty());
    assert(info@ == opened(all[start as int]));
    let mut i: usize = start + 1;
    while i < end
        invariant
            start < i <= end,
            end < n,
            n == lines@.len(),
            n == all.len(),
            text::texts(lines@) == all,
            info@ == with_lines(opened(all[start as int]), all, start + 1, i as int),
        decreases end - i,
    {
        assert(all[i as int] == lines@[i as int]@);
        read_line(&mut info, lines[i].as_str());
        i += 1;
    }
    Ok(info)
}

/// Parse the identification block out of the bytes that the device sent.
pub fn parse_info_block(buf: &[u8]) -> (r: Result<DeviceInfo, String>)
    ensures
        info_view(r) == parsed_info(text::utf8_lossy(buf@)),
        valid_utf8(buf@) ==> info_view(r) == parsed_info(decode_utf8(buf@)),
{
    let t = text::lossy_text(buf);
    parse_info_text(t.as_str())
}

// ── The exchange ──────────────────────────────────────────────────────────

/// Whether `needle` stands in `haystack` at `i`.
pub open spec fn stands_at(haystack: Seq<u8>, needle: Seq<u8>, i: int) -> bool {
    0 <= i && i + needle.len() <= haystack.len() && haystack.subrange(i, i + needle.len())
        == needle
}

/// The first place of `needle` in `haystack`; nowhere for an empty `needle`.
pub fn find_subsequence(haystack: &[u8], needle: &[u8]) -> (r: Option<usize>)
    ensures
        match r {
            Some(i) => needle@.len() > 0 && stands_at(haystack@, needle@, i as int) && forall|j: int|
                0 <= j < i ==> !#[trigger] stands_at(haystack@, needle@, j),
            None => needle@.len() == 0 || forall|j: int|
                !#[trigger] stands_at(haystack@, needle@, j),
        },
{
    if needle.len() == 0 || haystack.len() < needle.len() {
        return None;
    }
    let last: usize = haystack.len() - needle.len();
    let mut i: usize = 0;
    while i <= last
        invariant
            needle@.len() > 0,
            last + needle@.len() == haystack@.len(),
            i <= last + 1,
            last < haystack@.len() <= usize::MAX,
            forall|j: int| 0 <= j < i ==> !#[trigger] stands_at(haystack@, needle@, j),
        decreases last + 1 - i,
    {
        let mut k: usize = 0;
        while k < needle.len() && haystack[i + k] == needle[k]
            invariant
                i <= last,
                last + needle@.len() == haystack@.len(),
                haystack@.len() <= usize::MAX,
                k <= needle@.len(),
                forall|m: int| 0 <= m < k ==> haystack@[i + m] == #[trigger] needle@[m],
            decreases needle@.len() - k,
        {
            k += 1;
        }
        if k == needle.len() {
            assert(haystack@.subrange(i as int, i + needle@.len()) =~= needle@);
            assert(stands_at(haystack@, needle@, i as int));
            return Some(i);
        }
        assert(!stands_at(haystack@, needle@, i as int)) by {
            assert(haystack@.subrange(i as int, i + needle@.len())[k as int] == haystack@[i + k]);
        }
        i += 1;
    }
    None
}

/// The bytes of `END-INFO`.
pub open spec fn sentinel_bytes() -> Seq<u8> {
    seq![0x45u8, 0x4eu8, 0x44u8, 0x2du8, 0x49u8, 0x4eu8, 0x46u8, 0x4fu8]
}

/// What happens on the link during an `info` exchange.
#[derive(Debug)]
pub enum InfoEvent {
    /// The command could not be written.
    WriteFailed(String),
    /// The response time is over.
    TimedOut,
    /// The link was closed.
    Closed,
    /// The link could not be read.
    ReadFailed(String),
    /// One more line was read; these are all bytes so far.
    Received(Vec<u8>),
}

/// How an exchange ended, as text.
pub open spec fn exchange_view(r: Result<DeviceInfo, InfoExchangeError>) -> Result<
    InfoText,
    ErrorText,
> {
    match r {
        Ok(i) => Ok(i@),
        Err(e) => Err(e@),
    }
}

/// How an exchange ends whose answer is this text.
pub open spec fn block_verdict(t: Seq<char>) -> Result<InfoText, ErrorText> {
    match parsed_info(t) {
        Ok(i) => Ok(i),
        Err(e) => Err(ErrorText::Soft(e)),
    }
}

/// How an exchange goes on: it ends, or waits for more.
pub open spec fn exchanged(event: InfoEvent) -> Option<Result<InfoText, ErrorText>> {
    match event {
        InfoEvent::WriteFailed(e) => Some(Err(ErrorText::Hard("Serial write error: "@ + e@))),
        InfoEvent::TimedOut => Some(
            Err(ErrorText::Soft("info command timed out; firmware may not be esp-csi-cli-rs"@)),
        ),
        InfoEvent::Closed => Some(Err(ErrorText::Hard("serial closed during info exchange"@))),
        InfoEvent::ReadFailed(e) => Some(Err(ErrorText::Hard("Serial read error: "@ + e@))),
        InfoEvent::Received(buf) => if exists|i: int|
            #[trigger] stands_at(buf@, sentinel_bytes(), i) {
            Some(block_verdict(text::utf8_lossy(buf@)))
        } else {
            None
        },
    }
}

/// One step of the `info` exchange: the caller writes [`info_command`] and reads
/// lines until the sentinel arrives or the response time is over, and hands in what
/// happened. The error is `Soft` when the link is healthy but the firmware is not
/// (or not `esp-csi-cli-rs`), `Hard` when the I/O itself failed.
pub fn do_info_exchange(event: InfoEvent) -> (r: Option<Result<DeviceInfo, InfoExchangeError>>)
    ensures
        match r {
            Some(done) => exchanged(event) == Some(exchange_view(done)),
            None => exchanged(event) is None,
        },
        match (event, r) {
            (InfoEvent::Received(buf), Some(done)) => valid_utf8(buf@) ==> exchange_view(done)
                == block_verdict(decode_utf8(buf@)),
            _ => true,
        },
{
    match event {
        InfoEvent::WriteFailed(e) => Some(
            Err(InfoExchangeError::Hard(text::join2("Serial write error: ", e.as_str()))),
        ),
        InfoEvent::TimedOut => Some(
            Err(
                InfoExchangeError::Soft(
                    "info command timed out; firmware may not be esp-csi-cli-rs".to_owned(),
                ),
            ),
        ),
        InfoEvent::Closed => Some(
            Err(InfoExchangeError::Hard("serial closed during info exchange".to_owned())),
        ),
        InfoEvent::ReadFailed(e) => Some(
            Err(InfoExchangeError::Hard(text::join2("Serial read error: ", e.as_str()))),
        ),
        InfoEvent::Received(buf) => {
            let needle: Vec<u8> = vec![
                0x45u8,
                0x4eu8,
                0x44u8,
                0x2du8,
                0x49u8,
                0x4eu8,
                0x46u8,
                0x4fu8,
            ];
            assert(needle@ =~= sentinel_bytes());
            match find_subsequence(buf.as_slice(), needle.as_slice()) {
                Some(_) => match parse_info_block(buf.as_slice()) {
                    Ok(i) => Some(Ok(i)),
                    Err(e) => Some(Err(InfoExchangeError::Soft(e))),
                },
                None => None,
            }
        },
    }
}

/// The line that asks for the identification.
pub open spec fn info_line() -> Seq<char> {
    "info\r\n"@
}

/// What is written to ask the device for its identification.
pub fn info_command() -> (r: &'static str)
    ensures
        r@ == info_line(),
{
    "info\r\n"
}

// ── The chip ──────────────────────────────────────────────────────────────

/// The connected chip's identity and its CSI wire layout, derived from the
/// firmware `info` block. Only constructible for chips with a known layout.
#[derive(Debug)]
pub struct ChipInfo {
    /// Chip string as reported by the firmware (e.g. `esp32c6`).
    pub name: String,
    /// Wire layout the decoder applies.
    pub variant: ChipVariant,
}

/// What a [`ChipInfo`] says.
#[verifier::ext_equal]
pub struct ChipText {
    pub name: Seq<char>,
    pub variant: ChipVariant,
}

impl View for ChipInfo {
    type V = ChipText;

    open spec fn view(&self) -> ChipText {
        ChipText { name: self.name@, variant: self.variant }
    }
}

/// An optional chip, as text.
pub open spec fn opt_chip(c: Option<ChipInfo>) -> Option<ChipText> {
    match c {
        Some(i) => Some(i@),
        None => None,
    }
}

/// The chip that an identification block names, where its layout is known.
pub open spec fn chip_of(info: InfoText) -> Option<ChipText> {
    match info.chip {
        Some(name) => match crate::csi::chip_layout(name) {
            Some(variant) => Some(ChipText { name, variant }),
            None => None,
        },
        None => None,
    }
}

impl ChipInfo {
    pub fn from_info(info: &DeviceInfo) -> (r: Option<Self>)
        ensures
            opt_chip(r) == chip_of(info@),
    {
        match &info.chip {
            Some(name) => match ChipVariant::from_chip_str(name.as_str()) {
                Some(variant) => Some(ChipInfo { name: name.clone(), variant }),
                None => None,
            },
            None => None,
        }
    }
}

// ── Laws ──────────────────────────────────────────────────────────────────

proof fn lemma_magic_at(lines: Seq<Seq<char>>, from: int)
    requires
        0 <= from,
    ensures
        magic_at(lines, from) < lines.len() ==> from <= magic_at(lines, from) && text::begins(
            lines[magic_at(lines, from)],
            magic(),
        ),
    decreases lines.len() - from,
{
    if from < lines.len() && !text::begins(lines[from], magic()) {
        lemma_magic_at(lines, from + 1);
    }
}

proof fn lemma_sentinel_at(lines: Seq<Seq<char>>, from: int)
    requires
        0 <= from,
    ensures
        sentinel_at(lines, from) < lines.len() ==> from <= sentinel_at(lines, from)
            && lines[sentinel_at(lines, from)] == sentinel(),
    decreases lines.len() - from,
{
    if from < lines.len() && lines[from] != sentinel() {
        lemma_sentinel_at(lines, from + 1);
    }
}

proof fn lemma_banner_stays(info: InfoText, lines: Seq<Seq<char>>, from: int, to: int)
    ensures
        with_lines(info, lines, from, to).banner_version == info.banner_version,
    decreases to - from,
{
    if from < to {
        lemma_banner_stays(info, lines, from, to - 1);
    }
}

/// Nothing is identified without the magic prefix: where a block is accepted, a
/// line opens with it, the version that follows it is the one reported, and a later
/// line is the sentinel.
pub proof fn law_identity_needs_the_magic_prefix(t: Seq<char>) -> (r: (int, int))
    requires
        parsed_info(t) is Ok,
    ensures
        0 <= r.0 <= r.1 < trimmed_lines(t).len(),
        trimmed_lines(t)[r.0] == magic() + parsed_info(t)->Ok_0.banner_version,
        trimmed_lines(t)[r.1] == sentinel(),
{
    let lines = trimmed_lines(t);
    let start = magic_at(lines, 0);
    let end = sentinel_at(lines, start);
    lemma_magic_at(lines, 0);
    lemma_sentinel_at(lines, start);
    lemma_banner_stays(opened(lines[start]), lines, start + 1, end);
    let line = lines[start];
    assert(line =~= line.take(magic().len() as int) + line.skip(magic().len() as int));
    (start, end)
}

/// The lines of a text, one after the other: each is what stands before a line end,
/// without the white space around it.
pub proof fn law_lines_of_a_text(a: Seq<char>, b: Seq<char>)
    requires
        !a.contains('\n'),
    ensures
        trimmed_lines(a) == seq![text::trimmed(a)],
        trimmed_lines(a.push('\n') + b) == seq![text::trimmed(a)] + trimmed_lines(b),
{
    text::law_splitting(a, b, '\n');
    assert(trimmed_lines(a) =~= seq![text::trimmed(a)]);
    assert(trimmed_lines(a.push('\n') + b) =~= seq![text::trimmed(a)] + trimmed_lines(b));
}

/// The parts of a list between commas, in order, without the white space around them and
/// without those that are blank.
pub proof fn law_comma_lists(a: Seq<char>, b: Seq<char>)
    requires
        !a.contains(','),
    ensures
        comma_list(a) == if text::trimmed(a).len() > 0 {
            seq![text::trimmed(a)]
        } else {
            Seq::empty()
        },
        comma_list(a.push(',') + b) == comma_list(a) + comma_list(b),
{
    text::law_splitting(a, b, ',');
    let one = seq![a];
    assert(one.drop_last() =~= Seq::empty());
    assert(nonblank(one.drop_last()) =~= Seq::<Seq<char>>::empty());
    assert(comma_list(a) =~= if text::trimmed(a).len() > 0 {
        seq![text::trimmed(a)]
    } else {
        Seq::empty()
    });
    lemma_nonblank_joins(one, text::split(b, ','));
}

proof fn lemma_nonblank_joins(a: Seq<Seq<char>>, b: Seq<Seq<char>>)
    ensures
        nonblank(a + b) == nonblank(a) + nonblank(b),
    decreases b.len(),
{
    if b.len() > 0 {
        lemma_nonblank_joins(a, b.drop_last());
        assert((a + b).drop_last() =~= a + b.drop_last());
        assert((a + b).last() == b.last());
        assert(nonblank(a + b) =~= nonblank(a) + nonblank(b));
    } else {
        assert(a + b =~= a);
        assert(nonblank(a) + nonblank(b) =~= nonblank(a));
    }
}

/// What stands before the first `=` of a line.
spec fn key_of(line: Seq<char>) -> Option<Seq<char>> {
    match text::split_once(line, '=') {
        Some((k, _)) => Some(k),
        None => None,
    }
}

/// What stands behind the first `=` of a line.
spec fn value_of(line: Seq<char>) -> Seq<char> {
    match text::split_once(line, '=') {
        Some((_, v)) => v,
        None => Seq::empty(),
    }
}

/// A line has a key exactly where it begins with the key and a `=`.
proof fn lemma_keyed(line: Seq<char>, key: Seq<char>)
    requires
        !key.contains('='),
    ensures
        key_of(line) == Some(key) <==> text::begins(line, key.push('=')),
        key_of(line) == Some(key) ==> value_of(line) == line.skip(key.len() as int + 1),
{
    text::lemma_first_at(line, '=');
    let at = text::first_at(line, '=');
    if text::begins(line, key.push('=')) {
        let n = key.len() as int;
        assert(line.take(n + 1) == key.push('='));
        assert(line[n] == line.take(n + 1)[n]);
        assert forall|j: int| 0 <= j < n implies line[j] != '=' by {
            assert(line[j] == line.take(n + 1)[j]);
            assert(key.contains(key[j]));
        }
        text::lemma_first_at_unique(line, '=', n);
        assert(line.take(n) =~= key);
    }
    if key_of(line) == Some(key) {
        assert(line.take(at) == key);
        assert(line.take(at + 1) =~= key.push('='));
    }
}

/// The last of the lines `from` to `to` with that key; `-1` where there is none.
spec fn last_with(lines: Seq<Seq<char>>, from: int, to: int, key: Seq<char>) -> int
    decreases to - from,
{
    if to <= from {
        -1
    } else if key_of(lines[to - 1]) == Some(key) {
        to - 1
    } else {
        last_with(lines, from, to - 1, key)
    }
}

proof fn lemma_last_with(lines: Seq<Seq<char>>, from: int, to: int, key: Seq<char>)
    requires
        0 <= from,
    ensures
        ({
            let last = last_with(lines, from, to, key);
            &&& last == -1 || from <= last < to
            &&& last >= 0 ==> key_of(lines[last]) == Some(key)
            &&& forall|j: int|
                from <= j < to && last < j ==> key_of(#[trigger] lines[j]) != Some(key)
        }),
    decreases to - from,
{
    if from < to {
        lemma_last_with(lines, from, to - 1, key);
    }
}

/// The keys differ.
proof fn lemma_keys()
    ensures
        "name"@ != "version"@ && "name"@ != "chip"@ && "name"@ != "mac"@ && "name"@ != "protocol"@
            && "name"@ != "features"@,
        "version"@ != "chip"@ && "version"@ != "mac"@ && "version"@ != "protocol"@ && "version"@
            != "features"@,
        "chip"@ != "mac"@ && "chip"@ != "protocol"@ && "chip"@ != "features"@,
        "mac"@ != "protocol"@ && "mac"@ != "features"@,
        "protocol"@ != "features"@,
        !"name"@.contains('=') && !"version"@.contains('=') && !"chip"@.contains('='),
        !"mac"@.contains('=') && !"protocol"@.contains('=') && !"features"@.contains('='),
{
    reveal_strlit("name");
    reveal_strlit("version");
    reveal_strlit("chip");
    reveal_strlit("mac");
    reveal_strlit("protocol");
    reveal_strlit("features");
    assert("name"@.len() == 4 && "version"@.len() == 7 && "chip"@.len() == 4 && "mac"@.len() == 3
        && "protocol"@.len() == 8 && "features"@.len() == 8);
    assert("name"@[0] == 'n' && "chip"@[0] == 'c' && "protocol"@[0] == 'p' && "features"@[0] == 'f');
}

/// Each key of a block is decided by its last line.
proof fn lemma_fields(info: InfoText, lines: Seq<Seq<char>>, from: int, to: int)
    requires
        0 <= from,
    ensures
        with_lines(info, lines, from, to).name == if last_with(lines, from, to, "name"@) >= from {
            Some(value_of(lines[last_with(lines, from, to, "name"@)]))
        } else {
            info.name
        },
        with_lines(info, lines, from, to).version == if last_with(lines, from, to, "version"@) >= from {
            Some(value_of(lines[last_with(lines, from, to, "version"@)]))
        } else {
            info.version
        },
        with_lines(info, lines, from, to).chip == if last_with(lines, from, to, "chip"@) >= from {
            Some(value_of(lines[last_with(lines, from, to, "chip"@)]))
        } else {
            info.chip
        },
        with_lines(info, lines, from, to).mac == if last_with(lines, from, to, "mac"@) >= from {
            Some(value_of(lines[last_with(lines, from, to, "mac"@)]))
        } else {
            info.mac
        },
        with_lines(info, lines, from, to).protocol == if last_with(lines, from, to, "protocol"@) >= from {
            text::u32_of(value_of(lines[last_with(lines, from, to, "protocol"@)]))
        } else {
            info.protocol
        },
        with_lines(info, lines, from, to).features == if last_with(lines, from, to, "features"@) >= from {
            comma_list(value_of(lines[last_with(lines, from, to, "features"@)]))
        } else {
            info.features
        },
    decreases to - from,
{
    lemma_keys();
    if from < to {
        lemma_fields(info, lines, from, to - 1);
        let line = lines[to - 1];
        lemma_last_with(lines, from, to - 1, "name"@);
        lemma_last_with(lines, from, to - 1, "version"@);
        lemma_last_with(lines, from, to - 1, "chip"@);
        lemma_last_with(lines, from, to - 1, "mac"@);
        lemma_last_with(lines, from, to - 1, "protocol"@);
        lemma_last_with(lines, from, to - 1, "features"@);
    }
}

/// A block is what stands between the first line that begins with `ESP-CSI-CLI/` and the
/// first `END-INFO` from there on. It identifies the version behind the prefix; of every
/// key the last line decides, and what no line names is absent.
pub proof fn law_identification_blocks(t: Seq<char>, start: int, end: int)
    requires
        0 <= start <= end < trimmed_lines(t).len(),
        text::begins(trimmed_lines(t)[start], "ESP-CSI-CLI/"@),
        forall|i: int|
            0 <= i < start ==> !text::begins(#[trigger] trimmed_lines(t)[i], "ESP-CSI-CLI/"@),
        trimmed_lines(t)[end] == "END-INFO"@,
        forall|i: int| start <= i < end ==> #[trigger] trimmed_lines(t)[i] != "END-INFO"@,
    ensures
        parsed_info(t) matches Ok(r) && ({
            let lines = trimmed_lines(t);
            &&& r.banner_version == lines[start].skip("ESP-CSI-CLI/"@.len() as int)
            &&& forall|k: int|
                start < k < end && text::begins(#[trigger] lines[k], "name="@) && (forall|j: int|
                    k < j < end ==> !text::begins(#[trigger] lines[j], "name="@)) ==> r.name == Some(lines[k].skip(5))
            &&& (forall|k: int| start < k < end ==> !text::begins(#[trigger] lines[k], "name="@))
                ==> r.name is None
            &&& forall|k: int|
                start < k < end && text::begins(#[trigger] lines[k], "version="@) && (forall|j: int|
                    k < j < end ==> !text::begins(#[trigger] lines[j], "version="@)) ==> r.version == Some(lines[k].skip(8))
            &&& (forall|k: int| start < k < end ==> !text::begins(#[trigger] lines[k], "version="@))
                ==> r.version is None
            &&& forall|k: int|
                start < k < end && text::begins(#[trigger] lines[k], "chip="@) && (forall|j: int|
                    k < j < end ==> !text::begins(#[trigger] lines[j], "chip="@)) ==> r.chip == Some(lines[k].skip(5))
            &&& (forall|k: int| start < k < end ==> !text::begins(#[trigger] lines[k], "chip="@))
                ==> r.chip is None
            &&& forall|k: int|
                start < k < end && text::begins(#[trigger] lines[k], "mac="@) && (forall|j: int|
                    k < j < end ==> !text::begins(#[trigger] lines[j], "mac="@)) ==> r.mac == Some(lines[k].skip(4))
            &&& (forall|k: int| start < k < end ==> !text::begins(#[trigger] lines[k], "mac="@))
                ==> r.mac is None
            &&& forall|k: int|
                start < k < end && text::begins(#[trigger] lines[k], "protocol="@) && (forall|j: int|
                    k < j < end ==> !text::begins(#[trigger] lines[j], "protocol="@)) ==> r.protocol == text::u32_of(lines[k].skip(9))
            &&& (forall|k: int| start < k < end ==> !text::begins(#[trigger] lines[k], "protocol="@))
                ==> r.protocol is None
            &&& forall|k: int|
                start < k < end && text::begins(#[trigger] lines[k], "features="@) && (forall|j: int|
                    k < j < end ==> !text::begins(#[trigger] lines[j], "features="@)) ==> r.features == comma_list(lines[k].skip(9))
            &&& (forall|k: int| start < k < end ==> !text::begins(#[trigger] lines[k], "features="@))
                ==> r.features.len() == 0
        }),
{
    let lines = trimmed_lines(t);
    lemma_magic_is(lines, 0, start);
    lemma_sentinel_is(lines, start, end);
    let r = with_lines(opened(lines[start]), lines, start + 1, end);
    lemma_banner_stays(opened(lines[start]), lines, start + 1, end);
    lemma_fields(opened(lines[start]), lines, start + 1, end);
    lemma_keys();
    reveal_strlit("name");
    reveal_strlit("name=");
    reveal_strlit("version");
    reveal_strlit("version=");
    reveal_strlit("chip");
    reveal_strlit("chip=");
    reveal_strlit("mac");
    reveal_strlit("mac=");
    reveal_strlit("protocol");
    reveal_strlit("protocol=");
    reveal_strlit("features");
    reveal_strlit("features=");
    lemma_last_with(lines, start + 1, end, "name"@);
    assert("name"@.push('=') =~= "name="@);
    assert forall|k: int|
        start < k < end && text::begins(#[trigger] lines[k], "name="@) && (forall|j: int|
            k < j < end ==> !text::begins(#[trigger] lines[j], "name="@)) implies r.name == Some(lines[k].skip(5)) by {
        lemma_keyed(lines[k], "name"@);
        let last = last_with(lines, start + 1, end, "name"@);
        if last > k {
            lemma_keyed(lines[last], "name"@);
        }
        assert(last == k);
    }
    if forall|k: int| start < k < end ==> !text::begins(#[trigger] lines[k], "name="@) {
        let last = last_with(lines, start + 1, end, "name"@);
        if last >= start + 1 {
            lemma_keyed(lines[last], "name"@);
        }
        assert(r.name is None);
    }
    lemma_last_with(lines, start + 1, end, "version"@);
    assert("version"@.push('=') =~= "version="@);
    assert forall|k: int|
        start < k < end && text::begins(#[trigger] lines[k], "version="@) && (forall|j: int|
            k < j < end ==> !text::begins(#[trigger] lines[j], "version="@)) implies r.version == Some(lines[k].skip(8)) by {
        lemma_keyed(lines[k], "version"@);
        let last = last_with(lines, start + 1, end, "version"@);
        if last > k {
            lemma_keyed(lines[last], "version"@);
        }
        assert(last == k);
    }
    if forall|k: int| start < k < end ==> !text::begins(#[trigger] lines[k], "version="@) {
        let last = last_with(lines, start + 1, end, "version"@);
        if last >= start + 1 {
            lemma_keyed(lines[last], "version"@);
        }
        assert(r.version is None);
    }
    lemma_last_with(lines, start + 1, end, "chip"@);
    assert("chip"@.push('=') =~= "chip="@);
    assert forall|k: int|
        start < k < end && text::begins(#[trigger] lines[k], "chip="@) && (forall|j: int|
            k < j < end ==> !text::begins(#[trigger] lines[j], "chip="@)) implies r.chip == Some(lines[k].skip(5)) by {
        lemma_keyed(lines[k], "chip"@);
        let last = last_with(lines, start + 1, end, "chip"@);
        if last > k {
            lemma_keyed(lines[last], "chip"@);
        }
        assert(last == k);
    }
    if forall|k: int| start < k < end ==> !text::begins(#[trigger] lines[k], "chip="@) {
        let last = last_with(lines, start + 1, end, "chip"@);
        if last >= start + 1 {
            lemma_keyed(lines[last], "chip"@);
        }
        assert(r.chip is None);
    }
    lemma_last_with(lines, start + 1, end, "mac"@);
    assert("mac"@.push('=') =~= "mac="@);
    assert forall|k: int|
        start < k < end && text::begins(#[trigger] lines[k], "mac="@) && (forall|j: int|
            k < j < end ==> !text::begins(#[trigger] lines[j], "mac="@)) implies r.mac == Some(lines[k].skip(4)) by {
        lemma_keyed(lines[k], "mac"@);
        let last = last_with(lines, start + 1, end, "mac"@);
        if last > k {
            lemma_keyed(lines[last], "mac"@);
        }
        assert(last == k);
    }
    if forall|k: int| start < k < end ==> !text::begins(#[trigger] lines[k], "mac="@) {
        let last = last_with(lines, start + 1, end, "mac"@);
        if last >= start + 1 {
            lemma_keyed(lines[last], "mac"@);
        }
        assert(r.mac is None);
    }
    lemma_last_with(lines, start + 1, end, "protocol"@);
    assert("protocol"@.push('=') =~= "protocol="@);
    assert forall|k: int|
        start < k < end && text::begins(#[trigger] lines[k], "protocol="@) && (forall|j: int|
            k < j < end ==> !text::begins(#[trigger] lines[j], "protocol="@)) implies r.protocol == text::u32_of(lines[k].skip(9)) by {
        lemma_keyed(lines[k], "protocol"@);
        let last = last_with(lines, start + 1, end, "protocol"@);
        if last > k {
            lemma_keyed(lines[last], "protocol"@);
        }
        assert(last == k);
    }
    if forall|k: int| start < k < end ==> !text::begins(#[trigger] lines[k], "protocol="@) {
        let last = last_with(lines, start + 1, end, "protocol"@);
        if last >= start + 1 {
            lemma_keyed(lines[last], "protocol"@);
        }
        assert(r.protocol is None);
    }
    lemma_last_with(lines, start + 1, end, "features"@);
    assert("features"@.push('=') =~= "features="@);
    assert forall|k: int|
        start < k < end && text::begins(#[trigger] lines[k], "features="@) && (forall|j: int|
            k < j < end ==> !text::begins(#[trigger] lines[j], "features="@)) implies r.features == comma_list(lines[k].skip(9)) by {
        lemma_keyed(lines[k], "features"@);
        let last = last_with(lines, start + 1, end, "features"@);
        if last > k {
            lemma_keyed(lines[last], "features"@);
        }
        assert(last == k);
    }
    if forall|k: int| start < k < end ==> !text::begins(#[trigger] lines[k], "features="@) {
        let last = last_with(lines, start + 1, end, "features"@);
        if last >= start + 1 {
            lemma_keyed(lines[last], "features"@);
        }
        assert(r.features.len() == 0);
    }
}

proof fn lemma_magic_is(lines: Seq<Seq<char>>, from: int, start: int)
    requires
        0 <= from <= start <= lines.len(),
        start < lines.len() ==> text::begins(lines[start], magic()),
        forall|i: int| from <= i < start ==> !text::begins(#[trigger] lines[i], magic()),
    ensures
        magic_at(lines, from) == start,
    decreases start - from,
{
    if from < start {
        assert(!text::begins(lines[from], magic()));
        lemma_magic_is(lines, from + 1, start);
    }
}

proof fn lemma_sentinel_is(lines: Seq<Seq<char>>, from: int, end: int)
    requires
        0 <= from <= end <= lines.len(),
        end < lines.len() ==> lines[end] == sentinel(),
        forall|i: int| from <= i < end ==> #[trigger] lines[i] != sentinel(),
    ensures
        sentinel_at(lines, from) == end,
    decreases end - from,
{
    if from < end {
        assert(lines[from] != sentinel());
        lemma_sentinel_is(lines, from + 1, end);
    }
}

/// A text without the prefix, and one without a sentinel behind it, identify nothing, and
/// it is said which is missing.
pub proof fn law_incomplete_blocks(t: Seq<char>, start: int)
    requires
        0 <= start <= trimmed_lines(t).len(),
        forall|i: int|
            0 <= i < start ==> !text::begins(#[trigger] trimmed_lines(t)[i], "ESP-CSI-CLI/"@),
        start < trimmed_lines(t).len() ==> text::begins(trimmed_lines(t)[start], "ESP-CSI-CLI/"@),
        forall|i: int|
            start <= i < trimmed_lines(t).len() ==> #[trigger] trimmed_lines(t)[i] != "END-INFO"@,
    ensures
        start == trimmed_lines(t).len() ==> parsed_info(t) == Err::<InfoText, Seq<char>>(
            "info magic prefix 'ESP-CSI-CLI/' not seen — firmware is not esp-csi-cli-rs"@,
        ),
        start < trimmed_lines(t).len() ==> parsed_info(t) == Err::<InfoText, Seq<char>>(
            "END-INFO sentinel not seen in info block"@,
        ),
{
    let lines = trimmed_lines(t);
    lemma_magic_is(lines, 0, start);
    lemma_sentinel_is(lines, start, lines.len() as int);
}

/// An exchange goes on until `END-INFO` stands in what was received, and then ends with
/// what that identifies. It fails softly where the firmware is at fault, also by silence,
/// and hard where the link is.
pub proof fn law_exchanges(event: InfoEvent)
    ensures
        event matches InfoEvent::WriteFailed(e) ==> exchanged(event) == Some(
            Err::<InfoText, ErrorText>(ErrorText::Hard("Serial write error: "@ + e@)),
        ),
        event matches InfoEvent::ReadFailed(e) ==> exchanged(event) == Some(
            Err::<InfoText, ErrorText>(ErrorText::Hard("Serial read error: "@ + e@)),
        ),
        event is Closed ==> exchanged(event) == Some(
            Err::<InfoText, ErrorText>(ErrorText::Hard("serial closed during info exchange"@)),
        ),
        event is TimedOut ==> exchanged(event) == Some(
            Err::<InfoText, ErrorText>(
                ErrorText::Soft("info command timed out; firmware may not be esp-csi-cli-rs"@),
            ),
        ),
        event matches InfoEvent::Received(buf) ==> (exchanged(event) is Some <==> exists|i: int|
            0 <= i && i + 8 <= buf@.len() && #[trigger] buf@.subrange(i, i + 8)
                == seq![69u8, 78u8, 68u8, 45u8, 73u8, 78u8, 70u8, 79u8]),
        event matches InfoEvent::Received(buf) ==> exchanged(event) is Some ==> match parsed_info(
            text::utf8_lossy(buf@),
        ) {
            Ok(i) => exchanged(event)->0 == Ok::<InfoText, ErrorText>(i),
            Err(e) => exchanged(event)->0 == Err::<InfoText, ErrorText>(ErrorText::Soft(e)),
        },
{
    if let InfoEvent::Received(buf) = event {
        let end = seq![69u8, 78u8, 68u8, 45u8, 73u8, 78u8, 70u8, 79u8];
        assert(sentinel_bytes() =~= end);
        if exists|i: int| #[trigger] stands_at(buf@, sentinel_bytes(), i) {
            let i = choose|i: int| #[trigger] stands_at(buf@, sentinel_bytes(), i);
            assert(buf@.subrange(i, i + 8) == end);
        }
        if exists|i: int|
            0 <= i && i + 8 <= buf@.len() && #[trigger] buf@.subrange(i, i + 8) == end {
            let i = choose|i: int|
                0 <= i && i + 8 <= buf@.len() && #[trigger] buf@.subrange(i, i + 8) == end;
            assert(stands_at(buf@, sentinel_bytes(), i));
        }
    }
}

/// The chip of an identification is known where it names one whose layout is known, under
/// the name that it gives.
pub proof fn law_known_chips(info: InfoText)
    ensures
        chip_of(info) is Some <==> info.chip is Some && crate::csi::chip_layout(
            info.chip->0,
        ) is Some,
        chip_of(info) matches Some(c) ==> info.chip == Some(c.name) && crate::csi::chip_layout(
            c.name,
        ) == Some(c.variant),
{
}

/// What came of an exchange shows what it holds, and tells what was said.
pub proof fn law_verdicts_show_what_they_hold(i: DeviceInfo, m: String, c: ChipInfo)
    ensures
        exchange_view(Ok(i)) == Ok::<InfoText, ErrorText>(i@),
        exchange_view(Err(InfoExchangeError::Soft(m))) == Err::<InfoText, ErrorText>(
            ErrorText::Soft(m@),
        ),
        exchange_view(Err(InfoExchangeError::Hard(m))) == Err::<InfoText, ErrorText>(
            ErrorText::Hard(m@),
        ),
        error_words(InfoExchangeError::Soft(m)@) == m@,
        error_words(InfoExchangeError::Hard(m)@) == m@,
        info_view(Ok(i)) == Ok::<InfoText, Seq<char>>(i@),
        info_view(Err(m)) == Err::<InfoText, Seq<char>>(m@),
        opt_chip(Some(c)) matches Some(t) && t.name == c.name@ && t.variant == c.variant,
        opt_chip(None) is None,
{
}

} // verus!
