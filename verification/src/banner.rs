//! Banner extraction: what a service said after the connection opened,
//! reduced to one line of printable text.
//!
//! Each reader takes the octets that one read of the connection gave (none
//! where the read timed out, failed or met the end of the stream), looks at
//! no more of them than its working buffer holds, and returns the banner.
//! An empty banner is a result like any other: the port is open and the
//! service kept quiet.

use vstd::prelude::*;
use vstd::string::StringExecFns;
use crate::text::{
    append_text, contains, graphic_prefix, is_line_terminator, is_printable, lemma_printable,
    printable_only, sanitize, spec_all_printable, spec_contains, spec_graphic_prefix,
    spec_is_line_terminator, spec_is_printable, spec_lines, spec_printable_only, spec_sanitize,
    spec_starts_with, spec_starts_with_ignore_case, spec_text, spec_trim, split_lines,
    starts_with, starts_with_ignore_case, text_of, trim,
};

verus! {

/// The readers that know how to get a banner out of a service.
#[derive(Clone, Copy, Debug, PartialEq, Eq, Structural)]
pub enum BannerKind {
    /// Web servers: asked with a minimal request.
    Http,
    /// Services that expect a TLS handshake: listened to, not spoken to.
    Tls,
    /// File transfer.
    Ftp,
    /// Secure shell.
    Ssh,
    /// Telnet.
    Telnet,
    /// Mail transfer.
    Smtp,
    /// Mail retrieval, POP3.
    Pop3,
    /// Mail retrieval, IMAP.
    Imap,
    /// Everything else.
    Generic,
}

/// The reader for a port.
pub open spec fn spec_banner_kind(port: u16) -> BannerKind {
    if port == 80 || port == 8080 || port == 8000 || port == 8888 || port == 3000 || port == 5000
        || port == 9000 || port == 8081 || port == 8082 || port == 8090 {
        BannerKind::Http
    } else if port == 443 || port == 8443 || port == 9443 || port == 4443 || port == 8444 {
        BannerKind::Tls
    } else if port == 21 {
        BannerKind::Ftp
    } else if port == 22 {
        BannerKind::Ssh
    } else if port == 23 {
        BannerKind::Telnet
    } else if port == 25 {
        BannerKind::Smtp
    } else if port == 110 {
        BannerKind::Pop3
    } else if port == 143 {
        BannerKind::Imap
    } else {
        BannerKind::Generic
    }
}

/// How many octets the working buffer of a reader holds.
pub open spec fn spec_buffer_len(kind: BannerKind) -> nat {
    match kind {
        BannerKind::Http => 2048,
        BannerKind::Generic => 1024,
        BannerKind::Ssh => 256,
        _ => 512,
    }
}

/// How long a reader waits for the service to speak, in milliseconds.
pub open spec fn spec_read_timeout_ms(kind: BannerKind) -> u64 {
    match kind {
        BannerKind::Generic | BannerKind::Tls => 500,
        _ => 1000,
    }
}

/// `"GET / HTTP/1.0\r\nHost: localhost\r\n\r\n"`: the request that makes a
/// web server speak.
pub open spec fn spec_http_request() -> Seq<u8> {
    seq![
        0x47u8, 0x45, 0x54, 0x20, 0x2f, 0x20, 0x48, 0x54, 0x54, 0x50, 0x2f, 0x31, 0x2e, 0x30,
        0x0d, 0x0a, 0x48, 0x6f, 0x73, 0x74, 0x3a, 0x20, 0x6c, 0x6f, 0x63, 0x61, 0x6c, 0x68,
        0x6f, 0x73, 0x74, 0x0d, 0x0a, 0x0d, 0x0a,
    ]
}

/// What a reader sends before it listens: the request for a web server,
/// nothing for every other service.
pub open spec fn spec_opening(kind: BannerKind) -> Seq<u8> {
    if kind == BannerKind::Http {
        spec_http_request()
    } else {
        Seq::empty()
    }
}

/// `"220"`: how a file or mail transfer service begins its greeting.
pub open spec fn spec_marker_ready() -> Seq<u8> {
    seq![0x32u8, 0x32, 0x30]
}

/// `"+OK"`: how a POP3 service begins its greeting.
pub open spec fn spec_marker_pop3() -> Seq<u8> {
    seq![0x2bu8, 0x4f, 0x4b]
}

/// `"* OK"`: what the greeting of an IMAP service holds.
pub open spec fn spec_marker_imap() -> Seq<u8> {
    seq![0x2au8, 0x20, 0x4f, 0x4b]
}

/// `"SSH-"`: how the version line of a secure shell service begins.
pub open spec fn spec_marker_ssh() -> Seq<u8> {
    seq![0x53u8, 0x53, 0x48, 0x2d]
}

/// `"HTTP/"`: how the status line of a web server begins.
pub open spec fn spec_marker_http() -> Seq<u8> {
    seq![0x48u8, 0x54, 0x54, 0x50, 0x2f]
}

/// `"server:"`: the name of the header in which a web server names itself,
/// in lower case.
pub open spec fn spec_marker_server() -> Seq<u8> {
    seq![0x73u8, 0x65, 0x72, 0x76, 0x65, 0x72, 0x3a]
}

/// The part of what was received that fits the working buffer.
pub open spec fn spec_window(kind: BannerKind, received: Seq<u8>) -> Seq<u8> {
    if received.len() <= spec_buffer_len(kind) {
        received
    } else {
        received.take(spec_buffer_len(kind) as int)
    }
}

/// A greeting as one line: sanitized, without white space around it.
pub open spec fn spec_greeting(s: Seq<u8>) -> Seq<u8> {
    spec_trim(spec_sanitize(s))
}

/// What the generic reader makes of one line: its printable octets without
/// white space around them.
pub open spec fn spec_generic_line(line: Seq<u8>) -> Seq<u8> {
    spec_trim(spec_printable_only(line))
}

/// The first line with more than three octets of printable content, reduced
/// to that content; nothing where no line has as much.
pub open spec fn spec_generic_pick(lines: Seq<Seq<u8>>) -> Seq<u8>
    decreases lines.len(),
{
    if lines.len() == 0 {
        Seq::empty()
    } else if spec_generic_line(lines.first()).len() > 3 {
        spec_generic_line(lines.first())
    } else {
        spec_generic_pick(lines.drop_first())
    }
}

/// The graphic start of the first line that begins with `"SSH-"`; nothing
/// where no line does.
pub open spec fn spec_ssh_pick(lines: Seq<Seq<u8>>) -> Seq<u8>
    decreases lines.len(),
{
    if lines.len() == 0 {
        Seq::empty()
    } else if spec_starts_with(lines.first(), spec_marker_ssh()) {
        spec_graphic_prefix(lines.first())
    } else {
        spec_ssh_pick(lines.drop_first())
    }
}

/// The first line that begins with `"server:"` in any mix of upper and lower
/// case, as a greeting.
pub open spec fn spec_server_pick(lines: Seq<Seq<u8>>) -> Option<Seq<u8>>
    decreases lines.len(),
{
    if lines.len() == 0 {
        None
    } else if spec_starts_with_ignore_case(lines.first(), spec_marker_server()) {
        Some(spec_greeting(lines.first()))
    } else {
        spec_server_pick(lines.drop_first())
    }
}

/// The banner of a service of no known kind.
pub open spec fn spec_generic_banner(data: Seq<u8>) -> Seq<char> {
    spec_text(spec_generic_pick(spec_lines(data)))
}

/// The banner of a service that expects a TLS handshake: a label, followed
/// by whatever the service said unasked.
pub open spec fn spec_tls_banner(data: Seq<u8>) -> Seq<char> {
    if spec_greeting(data).len() > 0 {
        "SSL/TLS service - "@ + spec_text(spec_greeting(data))
    } else {
        "SSL/TLS service"@
    }
}

/// The banner of a web server: the header in which it names itself, else
/// its status line, else a note that something answered.
pub open spec fn spec_http_banner(data: Seq<u8>) -> Seq<char> {
    if data.len() == 0 {
        Seq::empty()
    } else {
        match spec_server_pick(spec_lines(data)) {
            Some(line) => spec_text(line),
            None => if spec_starts_with(spec_lines(data).first(), spec_marker_http()) {
                spec_text(spec_greeting(spec_lines(data).first()))
            } else {
                "HTTP service detected"@
            },
        }
    }
}

/// The banner of a service that greets in plain text.
pub open spec fn spec_greeting_banner(data: Seq<u8>) -> Seq<char> {
    spec_text(spec_greeting(data))
}

/// Whether an octet survives the telnet reader's filter, which drops
/// option negotiation and other control octets.
pub open spec fn spec_is_telnet_text(b: u8) -> bool {
    spec_is_printable(b) || spec_is_line_terminator(b)
}

/// The banner of a telnet service: its greeting, or a label where it sent
/// nothing but control octets.
pub open spec fn spec_telnet_banner(data: Seq<u8>) -> Seq<char> {
    if data.len() == 0 {
        Seq::empty()
    } else if exists|i: int| 0 <= i < data.len() && spec_is_telnet_text(#[trigger] data[i]) {
        spec_text(spec_greeting(data))
    } else {
        "Telnet service"@
    }
}

/// The banner of a secure shell service: its version, up to the first
/// octet that is not graphic.
pub open spec fn spec_ssh_banner(data: Seq<u8>) -> Seq<char> {
    spec_text(spec_ssh_pick(spec_lines(data)))
}

/// The banner that a reader returns for what one read gave.
pub open spec fn spec_banner(kind: BannerKind, received: Seq<u8>) -> Seq<char> {
    let data = spec_window(kind, received);
    match kind {
        BannerKind::Http => spec_http_banner(data),
        BannerKind::Tls => spec_tls_banner(data),
        BannerKind::Ssh => spec_ssh_banner(data),
        BannerKind::Telnet => spec_telnet_banner(data),
        BannerKind::Generic => spec_generic_banner(data),
        BannerKind::Ftp | BannerKind::Smtp | BannerKind::Pop3 | BannerKind::Imap => {
            spec_greeting_banner(data)
        },
    }
}

/// Whether what was received carries the mark by which a service of the
/// kind is known. Readers without such a mark accept everything.
pub open spec fn spec_has_marker(kind: BannerKind, received: Seq<u8>) -> bool {
    let data = spec_window(kind, received);
    match kind {
        BannerKind::Ftp | BannerKind::Smtp => spec_starts_with(data, spec_marker_ready()),
        BannerKind::Pop3 => spec_starts_with(data, spec_marker_pop3()),
        BannerKind::Imap => spec_contains(data, spec_marker_imap()),
        BannerKind::Ssh => exists|i: int|
            0 <= i < spec_lines(data).len() && spec_starts_with(
                #[trigger] spec_lines(data)[i],
                spec_marker_ssh(),
            ),
        _ => true,
    }
}

/// Whether a text is made of printable ASCII characters only: spaces and
/// graphic characters, no control characters and nothing beyond ASCII.
pub open spec fn spec_is_printable_text(text: Seq<char>) -> bool {
    forall|i: int| 0 <= i < text.len() ==> 0x20 <= (#[trigger] text[i]) as u32 <= 0x7e
}

proof fn lemma_text_is_printable(bytes: Seq<u8>)
    requires
        spec_all_printable(bytes),
    ensures
        spec_is_printable_text(spec_text(bytes)),
{
    assert forall|i: int| 0 <= i < spec_text(bytes).len() implies 0x20 <= (
    #[trigger] spec_text(bytes)[i]) as u32 <= 0x7e by {
        assert(spec_is_printable(bytes[i]));
    }
}

proof fn lemma_greeting_is_printable(data: Seq<u8>)
    ensures
        spec_is_printable_text(spec_text(spec_greeting(data))),
{
    lemma_printable(data);
    lemma_printable(spec_sanitize(data));
    lemma_text_is_printable(spec_greeting(data));
}

proof fn lemma_generic_is_printable(lines: Seq<Seq<u8>>)
    ensures
        spec_is_printable_text(spec_text(spec_generic_pick(lines))),
    decreases lines.len(),
{
    if lines.len() == 0 {
        lemma_text_is_printable(Seq::empty());
    } else if spec_generic_line(lines.first()).len() > 3 {
        lemma_printable(lines.first());
        lemma_printable(spec_printable_only(lines.first()));
        lemma_text_is_printable(spec_generic_line(lines.first()));
    } else {
        lemma_generic_is_printable(lines.drop_first());
    }
}

proof fn lemma_ssh_is_printable(lines: Seq<Seq<u8>>)
    ensures
        spec_is_printable_text(spec_text(spec_ssh_pick(lines))),
    decreases lines.len(),
{
    if lines.len() == 0 {
        lemma_text_is_printable(Seq::empty());
    } else if spec_starts_with(lines.first(), spec_marker_ssh()) {
        lemma_printable(lines.first());
        lemma_text_is_printable(spec_graphic_prefix(lines.first()));
    } else {
        lemma_ssh_is_printable(lines.drop_first());
    }
}

proof fn lemma_server_is_printable(lines: Seq<Seq<u8>>)
    ensures
        spec_server_pick(lines) matches Some(line) ==> spec_is_printable_text(spec_text(line)),
    decreases lines.len(),
{
    if lines.len() == 0 {
    } else if spec_starts_with_ignore_case(lines.first(), spec_marker_server()) {
        lemma_greeting_is_printable(lines.first());
    } else {
        lemma_server_is_printable(lines.drop_first());
    }
}

/// Whatever a service sends, the banner that a reader returns is made of
/// printable characters only: it holds no control character, no line
/// ending and nothing beyond ASCII.
pub proof fn lemma_banner_is_printable(kind: BannerKind, received: Seq<u8>)
    ensures
        spec_is_printable_text(spec_banner(kind, received)),
{
    let data = spec_window(kind, received);
    reveal_strlit("SSL/TLS service - ");
    reveal_strlit("SSL/TLS service");
    reveal_strlit("HTTP service detected");
    reveal_strlit("Telnet service");
    lemma_greeting_is_printable(data);
    lemma_generic_is_printable(spec_lines(data));
    lemma_ssh_is_printable(spec_lines(data));
    lemma_server_is_printable(spec_lines(data));
    lemma_text_is_printable(Seq::empty());
    if data.len() > 0 && spec_lines(data).len() > 0 {
        lemma_greeting_is_printable(spec_lines(data).first());
    }
    assert(spec_is_printable_text("SSL/TLS service"@));
    assert(spec_is_printable_text("SSL/TLS service - "@));
    assert(spec_is_printable_text("HTTP service detected"@));
    assert(spec_is_printable_text("Telnet service"@));
    match kind {
        BannerKind::Tls => {
            if spec_greeting(data).len() > 0 {
                let label = "SSL/TLS service - "@;
                let said = spec_text(spec_greeting(data));
                assert forall|i: int| 0 <= i < (label + said).len() implies 0x20 <= (#[trigger] (
                label + said)[i]) as u32 <= 0x7e by {
                    if i < label.len() {
                        assert((label + said)[i] == label[i]);
                    } else {
                        assert((label + said)[i] == said[i - label.len()]);
                    }
                }
            }
        },
        BannerKind::Http => {
            if data.len() > 0 {
                assert(spec_lines(data).len() > 0);
            }
        },
        _ => {},
    }
}

/// The reader for a port.
pub fn banner_kind(port: u16) -> (kind: BannerKind)
    ensures
        kind == spec_banner_kind(port),
{
    match port {
        80 | 8080 | 8000 | 8888 | 3000 | 5000 | 9000 | 8081 | 8082 | 8090 => BannerKind::Http,
        443 | 8443 | 9443 | 4443 | 8444 => BannerKind::Tls,
        21 => BannerKind::Ftp,
        22 => BannerKind::Ssh,
        23 => BannerKind::Telnet,
        25 => BannerKind::Smtp,
        110 => BannerKind::Pop3,
        143 => BannerKind::Imap,
        _ => BannerKind::Generic,
    }
}

impl BannerKind {
    /// How many octets the reader's working buffer holds. Whatever a service
    /// sends beyond that is cut off.
    pub fn buffer_len(&self) -> (n: usize)
        ensures
            n == spec_buffer_len(*self),
    {
        match self {
            BannerKind::Http => 2048,
            BannerKind::Generic => 1024,
            BannerKind::Ssh => 256,
            _ => 512,
        }
    }

    /// How long the reader waits for the service to speak, in milliseconds.
    pub fn read_timeout_ms(&self) -> (ms: u64)
        ensures
            ms == spec_read_timeout_ms(*self),
    {
        match self {
            BannerKind::Generic | BannerKind::Tls => 500,
            _ => 1000,
        }
    }

    /// What the reader sends before it listens.
    pub fn opening(&self) -> (request: Vec<u8>)
        ensures
            request@ == spec_opening(*self),
    {
        match self {
            BannerKind::Http => {
                let request = vec![
                    0x47u8, 0x45, 0x54, 0x20, 0x2f, 0x20, 0x48, 0x54, 0x54, 0x50, 0x2f, 0x31, 0x2e,
                    0x30, 0x0d, 0x0a, 0x48, 0x6f, 0x73, 0x74, 0x3a, 0x20, 0x6c, 0x6f, 0x63, 0x61,
                    0x6c, 0x68, 0x6f, 0x73, 0x74, 0x0d, 0x0a, 0x0d, 0x0a,
                ];
                assert(request@ =~= spec_http_request());
                request
            },
            _ => Vec::new(),
        }
    }
}

/// The part of what was received that fits the working buffer.
fn window(kind: BannerKind, received: &[u8]) -> (data: &[u8])
    ensures
        data@ == spec_window(kind, received@),
{
    let cap = kind.buffer_len();
    if received.len() <= cap {
        received
    } else {
        let data = &received[0..cap];
        assert(data@ == received@.take(cap as int));
        data
    }
}

fn greeting(data: &[u8]) -> (out: Vec<u8>)
    ensures
        out@ == spec_greeting(data@),
{
    let clean = sanitize(data);
    trim(clean.as_slice())
}

/// The banner of a service of no known kind: the first line with more than
/// three octets of printable content.
pub fn grab_generic_banner(received: &[u8]) -> (banner: String)
    ensures
        banner@ == spec_banner(BannerKind::Generic, received@),
{
    let data = window(BannerKind::Generic, received);
    let lines = split_lines(data);
    let ghost all = spec_lines(data@);
    let mut i: usize = 0;
    assert(all.skip(0) == all);
    while i < lines.len()
        invariant
            i <= lines@.len() == all.len(),
            forall|k: int| 0 <= k < lines@.len() ==> (#[trigger] lines@[k])@ == all[k],
            spec_generic_pick(all) == spec_generic_pick(all.skip(i as int)),
            all == spec_lines(data@),
            data@ == spec_window(BannerKind::Generic, received@),
            data@.len() > 0 || BannerKind::Generic != BannerKind::Http,
        decreases lines.len() - i,
    {
        assert(all.skip(i as int).drop_first() == all.skip(i + 1));
        let kept = printable_only(lines[i].as_slice());
        let line = trim(kept.as_slice());
        if line.len() > 3 {
            return text_of(line.as_slice());
        }
        i = i + 1;
    }
    let banner = String::new();
    assert(banner@ == spec_text(Seq::<u8>::empty()));
    banner
}

/// The banner of a service that expects a TLS handshake. No handshake is
/// made: the reader only labels the port and adds what the service said
/// unasked.
pub fn grab_ssl_banner(received: &[u8]) -> (banner: String)
    ensures
        banner@ == spec_banner(BannerKind::Tls, received@),
{
    let data = window(BannerKind::Tls, received);
    let said = greeting(data);
    if said.len() > 0 {
        let mut banner = String::from_str("SSL/TLS service - ");
        append_text(&mut banner, said.as_slice());
        banner
    } else {
        String::from_str("SSL/TLS service")
    }
}

/// The banner of a web server, from its answer to the opening request.
pub fn grab_http_banner(received: &[u8]) -> (banner: String)
    ensures
        banner@ == spec_banner(BannerKind::Http, received@),
{
    let data = window(BannerKind::Http, received);
    if data.len() == 0 {
        return String::new();
    }
    let lines = split_lines(data);
    let ghost all = spec_lines(data@);
    let server = [0x73u8, 0x65, 0x72, 0x76, 0x65, 0x72, 0x3a];
    assert(server@ =~= spec_marker_server());
    let mut i: usize = 0;
    assert(all.skip(0) == all);
    while i < lines.len()
        invariant
            i <= lines@.len() == all.len(),
            forall|k: int| 0 <= k < lines@.len() ==> (#[trigger] lines@[k])@ == all[k],
            spec_server_pick(all) == spec_server_pick(all.skip(i as int)),
            all == spec_lines(data@),
            data@ == spec_window(BannerKind::Http, received@),
            data@.len() > 0 || BannerKind::Http != BannerKind::Http,
            server@ == spec_marker_server(),
        decreases lines.len() - i,
    {
        assert(all.skip(i as int).drop_first() == all.skip(i + 1));
        if starts_with_ignore_case(lines[i].as_slice(), server.as_slice()) {
            let line = greeting(lines[i].as_slice());
            return text_of(line.as_slice());
        }
        i = i + 1;
    }
    assert(spec_server_pick(all) is None);
    assert(all.len() > 0);
    let status = [0x48u8, 0x54, 0x54, 0x50, 0x2f];
    assert(status@ =~= spec_marker_http());
    if starts_with(lines[0].as_slice(), status.as_slice()) {
        let line = greeting(lines[0].as_slice());
        text_of(line.as_slice())
    } else {
        String::from_str("HTTP service detected")
    }
}

fn grab_greeting(kind: BannerKind, received: &[u8]) -> (banner: String)
    ensures
        banner@ == spec_greeting_banner(spec_window(kind, received@)),
{
    let data = window(kind, received);
    let line = greeting(data);
    text_of(line.as_slice())
}

/// The banner of a file transfer service.
pub fn grab_ftp_banner(received: &[u8]) -> (banner: String)
    ensures
        banner@ == spec_banner(BannerKind::Ftp, received@),
{
    grab_greeting(BannerKind::Ftp, received)
}

/// The banner of a mail transfer service.
pub fn grab_smtp_banner(received: &[u8]) -> (banner: String)
    ensures
        banner@ == spec_banner(BannerKind::Smtp, received@),
{
    grab_greeting(BannerKind::Smtp, received)
}

/// The banner of a POP3 service.
pub fn grab_pop3_banner(received: &[u8]) -> (banner: String)
    ensures
        banner@ == spec_banner(BannerKind::Pop3, received@),
{
    grab_greeting(BannerKind::Pop3, received)
}

/// The banner of an IMAP service.
pub fn grab_imap_banner(received: &[u8]) -> (banner: String)
    ensures
        banner@ == spec_banner(BannerKind::Imap, received@),
{
    grab_greeting(BannerKind::Imap, received)
}

/// The banner of a telnet service. Telnet servers often negotiate options
/// before they greet; those octets are not text and are dropped.
pub fn grab_telnet_banner(received: &[u8]) -> (banner: String)
    ensures
        banner@ == spec_banner(BannerKind::Telnet, received@),
{
    let data = window(BannerKind::Telnet, received);
    if data.len() == 0 {
        return String::new();
    }
    let mut i: usize = 0;
    while i < data.len()
        invariant
            i <= data.len(),
            forall|k: int| 0 <= k < i ==> !spec_is_telnet_text(#[trigger] data@[k]),
            data@ == spec_window(BannerKind::Telnet, received@),
            data@.len() > 0,
        decreases data.len() - i,
    {
        if is_printable(data[i]) || is_line_terminator(data[i]) {
            let line = greeting(data);
            return text_of(line.as_slice());
        }
        i = i + 1;
    }
    String::from_str("Telnet service")
}

/// The banner of a secure shell service: the version that it announces.
pub fn grab_ssh_banner(received: &[u8]) -> (banner: String)
    ensures
        banner@ == spec_banner(BannerKind::Ssh, received@),
{
    let data = window(BannerKind::Ssh, received);
    let lines = split_lines(data);
    let ghost all = spec_lines(data@);
    let marker = [0x53u8, 0x53, 0x48, 0x2d];
    assert(marker@ =~= spec_marker_ssh());
    let mut i: usize = 0;
    assert(all.skip(0) == all);
    while i < lines.len()
        invariant
            i <= lines@.len() == all.len(),
            forall|k: int| 0 <= k < lines@.len() ==> (#[trigger] lines@[k])@ == all[k],
            spec_ssh_pick(all) == spec_ssh_pick(all.skip(i as int)),
            all == spec_lines(data@),
            data@ == spec_window(BannerKind::Ssh, received@),
            data@.len() > 0 || BannerKind::Ssh != BannerKind::Http,
            marker@ == spec_marker_ssh(),
        decreases lines.len() - i,
    {
        assert(all.skip(i as int).drop_first() == all.skip(i + 1));
        if starts_with(lines[i].as_slice(), marker.as_slice()) {
            let version = graphic_prefix(lines[i].as_slice());
            return text_of(version.as_slice());
        }
        i = i + 1;
    }
    let banner = String::new();
    assert(banner@ == spec_text(Seq::<u8>::empty()));
    banner
}

/// The banner of the service on `port`, from what one read of the
/// connection gave. The port decides which reader is used.
pub fn grab_banner(port: u16, received: &[u8]) -> (banner: String)
    ensures
        banner@ == spec_banner(spec_banner_kind(port), received@),
        spec_is_printable_text(banner@),
{
    proof {
        lemma_banner_is_printable(spec_banner_kind(port), received@);
    }
    match banner_kind(port) {
        BannerKind::Http => grab_http_banner(received),
        BannerKind::Tls => grab_ssl_banner(received),
        BannerKind::Ftp => grab_ftp_banner(received),
        BannerKind::Ssh => grab_ssh_banner(received),
        BannerKind::Telnet => grab_telnet_banner(received),
        BannerKind::Smtp => grab_smtp_banner(received),
        BannerKind::Pop3 => grab_pop3_banner(received),
        BannerKind::Imap => grab_imap_banner(received),
        BannerKind::Generic => grab_generic_banner(received),
    }
}

/// Whether what was received carries the mark by which a service of the
/// kind is known: `"220"` at the start for file and mail transfer, `"+OK"`
/// at the start for POP3, `"* OK"` anywhere for IMAP, a line that begins
/// with `"SSH-"` for secure shell.
pub fn has_marker(kind: BannerKind, received: &[u8]) -> (r: bool)
    ensures
        r == spec_has_marker(kind, received@),
{
    let data = window(kind, received);
    match kind {
        BannerKind::Ftp | BannerKind::Smtp => {
            let marker = [0x32u8, 0x32, 0x30];
            assert(marker@ =~= spec_marker_ready());
            starts_with(data, marker.as_slice())
        },
        BannerKind::Pop3 => {
            let marker = [0x2bu8, 0x4f, 0x4b];
            assert(marker@ =~= spec_marker_pop3());
            starts_with(data, marker.as_slice())
        },
        BannerKind::Imap => {
            let marker = [0x2au8, 0x20, 0x4f, 0x4b];
            assert(marker@ =~= spec_marker_imap());
            contains(data, marker.as_slice())
        },
        BannerKind::Ssh => {
            let marker = [0x53u8, 0x53, 0x48, 0x2d];
            assert(marker@ =~= spec_marker_ssh());
            let lines = split_lines(data);
            let mut i: usize = 0;
            while i < lines.len()
                invariant
                    i <= lines@.len() == spec_lines(data@).len(),
                    forall|k: int|
                        0 <= k < lines@.len() ==> (#[trigger] lines@[k])@ == spec_lines(data@)[k],
                    forall|k: int|
                        0 <= k < i ==> !spec_starts_with(
                            #[trigger] spec_lines(data@)[k],
                            spec_marker_ssh(),
                        ),
                    marker@ == spec_marker_ssh(),
                    data@ == spec_window(kind, received@),
                    kind == BannerKind::Ssh,
                decreases lines.len() - i,
            {
                if starts_with(lines[i].as_slice(), marker.as_slice()) {
                    return true;
                }
                i = i + 1;
            }
            false
        },
        _ => true,
    }
}

} // verus!
