//! The events that a client reacts to.

use vstd::prelude::*;
use crate::client::{
    action_views, send, server_actions, ActionView, Client, ClientAction, ClientView,
};
use crate::input::{KeyEvent, MouseEvent};
use crate::mouse::{quiet, telling, Outcome};
use crate::protocol::{ClientMessageView, ServerMessage, ServerMessageView};

verus! {

/// What the terminal of a client reports.
#[derive(Debug, Clone, Copy)]
pub enum TerminalInput {
    Resize { width: u16, height: u16 },
    Key { key: KeyEvent },
    Mouse { mouse: MouseEvent },
    /// Something that stands for nothing here.
    Other,
}

/// What a client reacts to.
pub enum AppEvent {
    Terminal { input: TerminalInput },
    Server { msg: ServerMessage },
}

impl ClientView {
    /// Whether an event can be handled.
    pub open spec fn can_handle(self, event: AppEvent) -> bool {
        event matches AppEvent::Terminal { input: TerminalInput::Mouse { mouse } }
            ==> self.accepts(mouse)
    }

    /// After an event. The times are in milliseconds, from any start, and in
    /// seconds of the calendar.
    pub open spec fn after(self, event: AppEvent, now_ms: u64, now_secs: u64) -> Outcome {
        match event {
            AppEvent::Terminal { input } => match input {
                TerminalInput::Resize { width, height } => telling(
                    self.resized(width, height),
                    ClientMessageView::TerminalResize { width, height },
                ),
                TerminalInput::Key { key } => Outcome {
                    client: self.after_key(key),
                    actions: self.key_actions(key),
                    quit: self.key_quits(key),
                },
                TerminalInput::Mouse { mouse } => self.after_mouse(mouse, now_ms),
                TerminalInput::Other => quiet(self),
            },
            AppEvent::Server { msg } => Outcome {
                client: self.after_server(msg@),
                actions: server_actions(msg@, now_secs),
                quit: msg@ is Shutdown,
            },
        }
    }
}

impl Client {
    /// Whether an event can be handled: a click needs the window that it is on.
    pub fn can_handle_event(&self, event: &AppEvent) -> (r: bool)
        requires
            self.wf(),
        ensures
            r == self@.can_handle(*event),
    {
        match event {
            AppEvent::Terminal { input: TerminalInput::Mouse { mouse } } => self.can_handle_mouse(
                mouse,
            ),
            _ => true,
        }
    }

    /// Something happened. Returns whether the client ends.
    pub fn handle_event(
        &mut self,
        event: AppEvent,
        now_ms: u64,
        now_secs: u64,
        out: &mut Vec<ClientAction>,
    ) -> (r: bool)
        requires
            old(self).wf(),
            old(self)@.can_handle(event),
        ensures
            final(self).wf(),
            final(self)@ == old(self)@.after(event, now_ms, now_secs).client,
            action_views(final(out)@) == action_views(old(out)@) + old(self)@.after(
                event,
                now_ms,
                now_secs,
            ).actions,
            r == old(self)@.after(event, now_ms, now_secs).quit,
    {
        let ghost done = action_views(out@);
        assert(done =~= done + Seq::<ActionView>::empty());
        match event {
            AppEvent::Terminal { input } => match input {
                TerminalInput::Resize { width, height } => {
                    self.handle_resize(width, height, out);
                    let ghost msg = ClientMessageView::TerminalResize { width, height };
                    assert(done.push(send(msg)) =~= done + seq![send(msg)]);
                    false
                },
                TerminalInput::Key { key } => self.handle_key(key, out),
                TerminalInput::Mouse { mouse } => self.handle_mouse(mouse, now_ms, out),
                TerminalInput::Other => false,
            },
            AppEvent::Server { msg } => self.handle_server(msg, now_secs, out),
        }
    }
}

impl ClientView {
    /// After messages from the server, one after the other, up to the first one
    /// that ends the client.
    pub open spec fn after_all(self, messages: Seq<ServerMessageView>) -> ClientView
        decreases messages.len(),
    {
        if messages.len() == 0 {
            self
        } else if messages[0] is Shutdown {
            self.after_server(messages[0])
        } else {
            self.after_server(messages[0]).after_all(messages.drop_first())
        }
    }
}

/// Messages from the server are handled in their order, each once: one more
/// message acts on what the earlier ones left, unless one of these ended the
/// client.
pub proof fn law_messages_act_in_order(
    client: ClientView,
    earlier: Seq<ServerMessageView>,
    msg: ServerMessageView,
)
    ensures
        (forall|i: int| 0 <= i < earlier.len() ==> !(#[trigger] earlier[i] is Shutdown))
            ==> client.after_all(earlier.push(msg)) == client.after_all(earlier).after_server(msg),
        (exists|i: int| 0 <= i < earlier.len() && #[trigger] earlier[i] is Shutdown)
            ==> client.after_all(earlier.push(msg)) == client.after_all(earlier),
    decreases earlier.len(),
{
    let all = earlier.push(msg);
    if earlier.len() == 0 {
        assert(all.drop_first() =~= Seq::<ServerMessageView>::empty());
        assert(client.after_server(msg).after_all(all.drop_first()) == client.after_server(msg));
    } else {
        let rest = earlier.drop_first();
        assert(all.drop_first() =~= rest.push(msg));
        assert(all[0] == earlier[0]);
        if !(earlier[0] is Shutdown) {
            law_messages_act_in_order(client.after_server(earlier[0]), rest, msg);
            assert forall|i: int| 0 <= i < rest.len() implies #[trigger] rest[i] == earlier[i
                + 1] by {}
            if exists|i: int| 0 <= i < earlier.len() && #[trigger] earlier[i] is Shutdown {
                let i = choose|i: int|
                    0 <= i < earlier.len() && #[trigger] earlier[i] is Shutdown;
                assert(rest[i - 1] is Shutdown);
            }
        }
    }
}

} // verus!
