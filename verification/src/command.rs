//! What the commands of the program ask of a server.

use vstd::prelude::*;
use crate::protocol::{
    opt_text, texts, ClientMessage, ClientMessageView, ServerMessage, ServerMessageView,
};
use crate::session::{
    law_last_reported_size_counts, law_screen_fits_every_client, ClientSize, PlanView, SessionView,
};
use crate::text::{decimal, own, push_decimal};

verus! {

/// How often a server that was just started is tried.
pub const CONNECT_ATTEMPTS: u32 = 10;

/// How long to wait before each try, in milliseconds.
pub const CONNECT_DELAY_MS: u64 = 100;

/// The address of a server.
pub open spec fn host_and_port(host: Seq<char>, port: u16) -> Seq<char> {
    host + seq![':'] + decimal(port as nat)
}

pub fn address(host: &str, port: u16) -> (r: String)
    ensures
        r@ == host_and_port(host@, port),
{
    let mut s = String::new();
    s.append(host);
    s.push(':');
    push_decimal(&mut s, port as u64);
    assert(s@ =~= host_and_port(host@, port));
    s
}

/// The arguments that a server is started with.
pub open spec fn start_args(host: Seq<char>, port: u16, layout: Option<Seq<char>>) -> Seq<Seq<char>> {
    let args = seq!["--server"@, "--host"@, host, "--port"@, decimal(port as nat)];
    match layout {
        Some(path) => args.push(path),
        None => args,
    }
}

pub fn server_args(host: &str, port: u16, layout: Option<String>) -> (r: Vec<String>)
    ensures
        texts(r@) == start_args(host@, port, opt_text(layout)),
{
    let mut r: Vec<String> = Vec::new();
    let mut number = String::new();
    push_decimal(&mut number, port as u64);
    assert(number@ =~= decimal(port as nat));
    r.push(own("--server"));
    r.push(own("--host"));
    r.push(own(host));
    r.push(own("--port"));
    r.push(number);
    if let Some(path) = layout {
        r.push(path);
    }
    assert(texts(r@) =~= start_args(host@, port, opt_text(layout)));
    r
}

/// What to do on the way to a server.
#[derive(Debug, Clone, Copy, PartialEq, Eq, Structural)]
pub enum StartStep {
    /// The server can be reached.
    Ready,
    /// Start a server.
    Start,
    /// Wait, and try again.
    WaitAndTry,
    /// The server that was started cannot be reached.
    GiveUp,
}

/// What to do after a try to reach a server.
pub open spec fn step_after(tried: Option<u32>, reached: bool) -> StartStep {
    if reached {
        StartStep::Ready
    } else {
        match tried {
            None => StartStep::Start,
            Some(n) => if n < CONNECT_ATTEMPTS {
                StartStep::WaitAndTry
            } else {
                StartStep::GiveUp
            },
        }
    }
}

/// What to do after a try to reach a server. `tried` is how often a server that
/// was started was tried, if one was.
pub fn connect_step(tried: Option<u32>, reached: bool) -> (r: StartStep)
    ensures
        r == (if reached {
            StartStep::Ready
        } else {
            match tried {
                None => StartStep::Start,
                Some(n) => if n < CONNECT_ATTEMPTS {
                    StartStep::WaitAndTry
                } else {
                    StartStep::GiveUp
                },
            }
        }),
        r == step_after(tried, reached),
{
    if reached {
        StartStep::Ready
    } else {
        match tried {
            None => StartStep::Start,
            Some(n) => if n < CONNECT_ATTEMPTS {
                StartStep::WaitAndTry
            } else {
                StartStep::GiveUp
            },
        }
    }
}

/// What a list of messages says.
pub open spec fn request_views(v: Seq<ClientMessage>) -> Seq<ClientMessageView> {
    Seq::new(v.len(), |i: int| v[i]@)
}

/// What a client sends first.
pub open spec fn greeting(width: u16, height: u16, layout: Option<Seq<char>>) -> Seq<
    ClientMessageView,
> {
    let hello = ClientMessageView::Connect { term_size: (width, height) };
    match layout {
        Some(path) => seq![hello, ClientMessageView::LoadLayout { path }],
        None => seq![hello],
    }
}

/// What a client sends first: the size of its screen, and the layout to load,
/// if it was given one.
pub fn first_messages(width: u16, height: u16, layout: Option<String>) -> (r: Vec<ClientMessage>)
    ensures
        request_views(r@) == match layout {
            Some(path) => seq![
                ClientMessageView::Connect { term_size: (width, height) },
                ClientMessageView::LoadLayout { path: path@ },
            ],
            None => seq![ClientMessageView::Connect { term_size: (width, height) }],
        },
        request_views(r@) == greeting(width, height, opt_text(layout)),
{
    let mut r: Vec<ClientMessage> = Vec::new();
    r.push(ClientMessage::Connect { term_size: (width, height) });
    match layout {
        Some(path) => {
            let ghost text = path@;
            r.push(ClientMessage::LoadLayout { path });
            assert(request_views(r@) =~= seq![
                ClientMessageView::Connect { term_size: (width, height) },
                ClientMessageView::LoadLayout { path: text },
            ]);
        },
        None => {
            assert(request_views(r@) =~= seq![
                ClientMessageView::Connect { term_size: (width, height) },
            ]);
        },
    }
    r
}

/// What the launch command asks for.
pub open spec fn launch_of(command: Seq<char>, args: Seq<Seq<char>>) -> ClientMessageView {
    ClientMessageView::CreateWindow {
        x: 10,
        y: 10,
        width: 82,
        height: 26,
        command: Some(command),
        args,
    }
}

/// What the capture command asks for.
pub open spec fn capture_of(window_id: Option<usize>) -> ClientMessageView {
    match window_id {
        Some(window_id) => ClientMessageView::CapturePane { window_id },
        None => ClientMessageView::CaptureFull,
    }
}

/// The request of the launch command: a window of the usual size that runs it.
pub fn launch_request(command: String, args: Vec<String>) -> (r: ClientMessage)
    ensures
        r@ == (ClientMessageView::CreateWindow {
            x: 10,
            y: 10,
            width: 82,
            height: 26,
            command: Some(command@),
            args: texts(args@),
        }),
        r@ == launch_of(command@, texts(args@)),
{
    ClientMessage::CreateWindow { x: 10, y: 10, width: 82, height: 26, command: Some(command), args }
}

/// The request of the capture command: one window, or the whole desktop.
pub fn capture_request(window_id: Option<usize>) -> (r: ClientMessage)
    ensures
        r@ == match window_id {
            Some(window_id) => ClientMessageView::CapturePane { window_id },
            None => ClientMessageView::CaptureFull,
        },
        r@ == capture_of(window_id),
{
    match window_id {
        Some(window_id) => ClientMessage::CapturePane { window_id },
        None => ClientMessage::CaptureFull,
    }
}

/// What the capture command does with a message from the server.
pub enum CaptureStep {
    /// Print the text, and end.
    Done { text: String },
    /// Fail with the message.
    Failed { message: String },
    /// Go on reading.
    Wait,
}

/// What a message from the server means for the capture command.
pub open spec fn is_capture_step(step: CaptureStep, msg: ServerMessageView) -> bool {
    match msg {
        ServerMessageView::FullCaptured { text } => step matches CaptureStep::Done { text: t }
            && t@ == text,
        ServerMessageView::PaneCaptured { text, .. } => step matches CaptureStep::Done { text: t }
            && t@ == text,
        ServerMessageView::Error { message } => step matches CaptureStep::Failed { message: m }
            && m@ == "Server error: "@ + message,
        _ => step is Wait,
    }
}

pub fn capture_step(msg: ServerMessage) -> (r: CaptureStep)
    ensures
        is_capture_step(r, msg@),
{
    match msg {
        ServerMessage::FullCaptured { text } => CaptureStep::Done { text },
        ServerMessage::PaneCaptured { window_id: _, text } => CaptureStep::Done { text },
        ServerMessage::Error { message } => {
            let mut s = String::new();
            s.append("Server error: ");
            s.append(message.as_str());
            assert(s@ =~= "Server error: "@ + message@);
            CaptureStep::Failed { message: s }
        },
        _ => CaptureStep::Wait,
    }
}

/// A server is started where it can be reached by the address that it is given,
/// with its layout where there is one.
pub proof fn law_started_server_has_the_address(
    host: Seq<char>,
    port: u16,
    layout: Option<Seq<char>>,
)
    ensures
        ({
            let args = start_args(host, port, layout);
            &&& args.len() == if layout is Some {
                6nat
            } else {
                5nat
            }
            &&& args[0] == "--server"@
            &&& args[1] == "--host"@ && args[2] == host
            &&& args[3] == "--port"@ && args[4] == decimal(port as nat)
            &&& layout matches Some(path) ==> args[5] == path
            &&& host_and_port(host, port) == host + seq![':'] + args[4]
        }),
{
}

/// The capture command ends with the first capture, with its text, or with the first
/// error, which it names; it waits through everything else.
pub proof fn law_capture_ends_with_its_reply(step: CaptureStep, msg: ServerMessageView)
    requires
        is_capture_step(step, msg),
    ensures
        step is Done <==> msg is FullCaptured || msg is PaneCaptured,
        step is Failed <==> msg is Error,
        msg matches ServerMessageView::FullCaptured { text } ==> step matches CaptureStep::Done {
            text: t,
        } && t@ == text,
        msg matches ServerMessageView::PaneCaptured { text, .. } ==> step matches CaptureStep::Done {
            text: t,
        } && t@ == text,
        msg matches ServerMessageView::Error { message } ==> step matches CaptureStep::Failed {
            message: m,
        } && m@ == "Server error: "@ + message,
{
}

/// A server is started only where none can be reached, and only once; it is then
/// waited for ten times before it is given up. Nothing more is done once it is reached.
pub proof fn law_server_is_started_once(tried: Option<u32>, reached: bool)
    ensures
        step_after(tried, reached) == StartStep::Ready <==> reached,
        step_after(tried, reached) == StartStep::Start <==> !reached && tried is None,
        step_after(tried, reached) == StartStep::WaitAndTry <==> !reached && tried is Some
            && tried->0 < 10,
        step_after(tried, reached) == StartStep::GiveUp <==> !reached && tried is Some && tried->0
            >= 10,
{
}

/// A client first tells the size of its screen, which the session keeps for it, and
/// asks for nothing else but the layout that it was given.
pub proof fn law_client_first_tells_its_size(
    session: SessionView,
    client: u64,
    width: u16,
    height: u16,
    layout: Option<Seq<char>>,
)
    requires
        session.wf(),
    ensures
        ({
            let sent = greeting(width, height, layout);
            let after = session.after(client, sent[0]);
            &&& sent.len() == if layout is Some {
                2nat
            } else {
                1nat
            }
            &&& after.sizes.contains(ClientSize { id: client, width, height })
            &&& after.screen.width <= width && after.screen.height <= height
            &&& after.state == session.state
            &&& layout matches Some(path) ==> sent[1] == (ClientMessageView::LoadLayout { path })
        }),
{
    let sent = greeting(width, height, layout);
    let size = ClientSize { id: client, width, height };
    law_last_reported_size_counts(session.sizes, size);
    law_screen_fits_every_client(session.after(client, sent[0]));
    let sizes = session.after(client, sent[0]).sizes;
    assert(sizes.last() == size);
    assert(sizes.contains(size));
}

/// The window of the launch command has room for a terminal of 80 columns and 24 rows
/// inside its frame, and runs the command with its arguments. On a screen with room
/// for it, it has that size.
pub proof fn law_launched_command_has_a_window(
    session: SessionView,
    command: Seq<char>,
    args: Seq<Seq<char>>,
)
    requires
        session.wf(),
        session.state.next_id < usize::MAX,
        session.screen.width >= 94,
        session.screen.height >= 38,
    ensures
        session.plan(launch_of(command, args)) matches PlanView::Spawn { window } && window.command
            == Some(command) && window.args == args && window.cols == 80 && window.rows == 24
            && window.rect.x == 10 && window.rect.y == 10 && window.rect.width == 82
            && window.rect.height == 26,
{
}

/// The capture command asks for the window that it was given, or for all.
pub proof fn law_capture_asks_for_its_window(window_id: usize)
    ensures
        capture_of(None) == ClientMessageView::CaptureFull,
        capture_of(Some(window_id)) == (ClientMessageView::CapturePane { window_id }),
{
}

} // verus!
