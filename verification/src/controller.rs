//! The top-level state machine: gates incoming host events behind the
//! permission flag, buffers pre-permission events in arrival order, drains
//! them exactly once when permission is granted, and dispatches permitted
//! events to the render state or to host-command emission.

use vstd::prelude::*;

use crate::outcome::{spec_or_result, EventLoopResult, FrameBuffer};
use crate::renderer::{
    spec_first_active, spec_next_tab_idx, spec_prev_tab_idx, spec_target_tab, spec_update_mode,
    spec_update_tabs, InputMode, RenderView, Renderer, TabInfo,
};

verus! {

/// The host's answer to the startup permission request.
#[derive(Clone, Copy, Debug, PartialEq, Eq, Structural)]
pub enum PermissionStatus {
    Granted,
    Denied,
}

/// One inbound host event. The host delivers exactly one per call; kinds
/// outside the subscribed set arrive as `Other` and are ignored.
#[derive(Debug)]
pub enum Event {
    /// The input mode changed.
    ModeUpdate(InputMode),
    /// The ordered list of open tabs changed.
    TabUpdate(Vec<TabInfo>),
    /// Pointer click at the given column of the bar.
    LeftClick(usize),
    /// Pointer scroll away from the user.
    ScrollUp,
    /// Pointer scroll toward the user.
    ScrollDown,
    /// The host's answer to the permission request, sent at most once.
    PermissionRequestResult(PermissionStatus),
    /// Any other event kind: logged by the shell and ignored here.
    Other,
}

/// One outbound, fire-and-forget command for the host to execute.
#[derive(Clone, Copy, Debug, PartialEq, Eq, Structural)]
pub enum HostCommand {
    /// Request the permission set the widget needs, at startup.
    RequestPermissions,
    /// Subscribe to the event kinds the widget handles, at startup.
    Subscribe,
    /// Set whether the widget can take focus; disabled once permitted.
    SetSelectable(bool),
    /// Close this widget instance (issued on permission denial).
    CloseSelf,
    /// Switch the active tab to the given 0-based index. The host boundary
    /// converts to the host's 1-based indexing and tolerates an index one
    /// past the last tab.
    SwitchTab(usize),
}

/// The mathematical view of the controller.
#[verifier::ext_equal]
pub struct ControllerView {
    pub permissions_granted: bool,
    pub event_queue: Seq<Event>,
    pub renderer: RenderView,
}

/// No permission result is ever buffered: grants and denials are handled
/// the moment they arrive.
pub open spec fn queue_ok(q: Seq<Event>) -> bool {
    forall|i: int|
        0 <= i < q.len() ==> !(#[trigger] q[i] matches Event::PermissionRequestResult(_))
}

impl ControllerView {
    /// Well-formedness: the render state is well formed and the queue holds
    /// no permission results.
    pub open spec fn wf(self) -> bool {
        &&& self.renderer.wf()
        &&& queue_ok(self.event_queue)
    }
}

/// The redraw signal reported to the host for one fallible outcome: an
/// error fails toward re-rendering rather than silently freezing the
/// display.
pub open spec fn spec_redraw(res: EventLoopResult) -> bool {
    match res {
        Ok(fb) => fb.spec_bool(),
        Err(_) => true,
    }
}

/// The `Active`-state dispatch of one non-permission event: what it does to
/// the render state, the outcome it reports, and the commands it emits.
pub open spec fn spec_active_step(v: RenderView, event: Event) -> (
    RenderView,
    EventLoopResult,
    Seq<HostCommand>,
) {
    match event {
        Event::ModeUpdate(mode) => {
            let (v2, fb) = spec_update_mode(v, mode);
            (v2, Ok(fb), Seq::empty())
        },
        Event::TabUpdate(tabs) => match spec_first_active(tabs@) {
            Some(i) => {
                let (v2, fb) = spec_update_tabs(v, i, tabs@);
                (v2, Ok(fb), Seq::empty())
            },
            None => (v, Ok(FrameBuffer::NoUpdates), Seq::empty()),
        },
        Event::LeftClick(col) => (
            v,
            Ok(FrameBuffer::NoUpdates),
            match spec_target_tab(v, col as int) {
                Some(i) => seq![HostCommand::SwitchTab(i as usize)],
                None => Seq::empty(),
            },
        ),
        Event::ScrollUp => (
            v,
            Ok(FrameBuffer::NoUpdates),
            seq![HostCommand::SwitchTab(spec_next_tab_idx(v) as usize)],
        ),
        Event::ScrollDown => (
            v,
            Ok(FrameBuffer::NoUpdates),
            seq![HostCommand::SwitchTab(spec_prev_tab_idx(v) as usize)],
        ),
        Event::PermissionRequestResult(_) => (v, Ok(FrameBuffer::NoUpdates), Seq::empty()),
        Event::Other => (v, Ok(FrameBuffer::NoUpdates), Seq::empty()),
    }
}

/// Replaying a buffered queue in arrival order through the `Active`
/// dispatch: outcomes are folded by OR, the first error short-circuits and
/// the remaining events are discarded.
pub open spec fn spec_drain(v: RenderView, q: Seq<Event>) -> (
    RenderView,
    EventLoopResult,
    Seq<HostCommand>,
)
    decreases q.len(),
{
    if q.len() == 0 {
        (v, Ok(FrameBuffer::NoUpdates), Seq::<HostCommand>::empty())
    } else {
        let (v1, r1, c1) = spec_active_step(v, q[0]);
        match r1 {
            Err(e) => (v1, Err(e), c1),
            Ok(fb1) => {
                let (v2, r2, c2) = spec_drain(v1, q.drop_first());
                (v2, spec_or_result(fb1, r2), c1 + c2)
            },
        }
    }
}

/// The controller's transition for one inbound event: the next state, the
/// redraw signal reported to the host, and the commands emitted.
pub open spec fn spec_step(c: ControllerView, event: Event) -> (
    ControllerView,
    bool,
    Seq<HostCommand>,
) {
    if event matches Event::PermissionRequestResult(PermissionStatus::Granted) {
        let (v2, res, cmds) = spec_drain(c.renderer, c.event_queue);
        (
            ControllerView {
                permissions_granted: true,
                event_queue: Seq::empty(),
                renderer: v2,
            },
            spec_redraw(res),
            seq![HostCommand::SetSelectable(false)] + cmds,
        )
    } else if event matches Event::PermissionRequestResult(PermissionStatus::Denied) {
        (
            ControllerView {
                permissions_granted: false,
                event_queue: Seq::empty(),
                renderer: c.renderer,
            },
            false,
            seq![HostCommand::CloseSelf],
        )
    } else if !c.permissions_granted {
        (
            ControllerView { event_queue: c.event_queue.push(event), ..c },
            false,
            Seq::<HostCommand>::empty(),
        )
    } else {
        let (v2, res, cmds) = spec_active_step(c.renderer, event);
        (ControllerView { renderer: v2, ..c }, spec_redraw(res), cmds)
    }
}

/// The startup commands: request permissions and subscribe; when the
/// permission flag is somehow already set, finish the permitted setup too.
pub open spec fn spec_load(c: ControllerView) -> Seq<HostCommand> {
    if c.permissions_granted {
        seq![
            HostCommand::RequestPermissions,
            HostCommand::Subscribe,
            HostCommand::SetSelectable(false),
        ]
    } else {
        seq![HostCommand::RequestPermissions, HostCommand::Subscribe]
    }
}

/// The outcome each buffered event reports when the queue is replayed
/// sequentially through the `Active` dispatch, in arrival order.
pub open spec fn spec_replay_outcomes(v: RenderView, q: Seq<Event>) -> Seq<EventLoopResult>
    decreases q.len(),
{
    if q.len() == 0 {
        Seq::<EventLoopResult>::empty()
    } else {
        let (v1, r1, c1) = spec_active_step(v, q[0]);
        seq![r1] + spec_replay_outcomes(v1, q.drop_first())
    }
}

/// Draining a queue reports exactly the fold of the outcomes of replaying
/// its events in arrival order.
pub proof fn lemma_drain_is_fold(v: RenderView, q: Seq<Event>)
    ensures
        spec_drain(v, q).1 == crate::outcome::spec_fold(spec_replay_outcomes(v, q)),
    decreases q.len(),
{
    if q.len() > 0 {
        let (v1, r1, c1) = spec_active_step(v, q[0]);
        lemma_drain_is_fold(v1, q.drop_first());
        assert(spec_replay_outcomes(v, q)[0] == r1);
        assert(spec_replay_outcomes(v, q).drop_first() =~= spec_replay_outcomes(
            v1,
            q.drop_first(),
        ));
    }
}

/// Feeding a whole sequence of events through the controller: the final
/// state, whether any step reported a redraw, and all commands emitted.
pub open spec fn spec_feed(c: ControllerView, es: Seq<Event>) -> (
    ControllerView,
    bool,
    Seq<HostCommand>,
)
    decreases es.len(),
{
    if es.len() == 0 {
        (c, false, Seq::<HostCommand>::empty())
    } else {
        let (c1, rd1, cs1) = spec_step(c, es[0]);
        let (c2, rd2, cs2) = spec_feed(c1, es.drop_first());
        (c2, rd1 || rd2, cs1 + cs2)
    }
}

/// Law: while permission is outstanding, a sequence of non-permission
/// events is buffered in arrival order; no step reports a redraw and no
/// command is emitted, and the rest of the state is untouched.
pub proof fn lemma_buffering(c: ControllerView, es: Seq<Event>)
    requires
        !c.permissions_granted,
        forall|i: int|
            0 <= i < es.len() ==> !(#[trigger] es[i] matches Event::PermissionRequestResult(_)),
    ensures
        ({
            let (c2, rd, cs) = spec_feed(c, es);
            &&& c2.event_queue == c.event_queue + es
            &&& !c2.permissions_granted
            &&& c2.renderer == c.renderer
            &&& rd == false
            &&& cs == Seq::<HostCommand>::empty()
        }),
    decreases es.len(),
{
    if es.len() == 0 {
        assert(c.event_queue + es =~= c.event_queue);
    } else {
        let (c1, rd1, cs1) = spec_step(c, es[0]);
        assert(forall|i: int|
            0 <= i < es.drop_first().len() ==> es.drop_first()[i] == es[i + 1]);
        lemma_buffering(c1, es.drop_first());
        assert(c.event_queue.push(es[0]) + es.drop_first() =~= c.event_queue + es);
        let (c2, rd2, cs2) = spec_feed(c1, es.drop_first());
        assert(cs1 + cs2 =~= Seq::<HostCommand>::empty());
    }
}

/// Law: for any sequence of non-permission events received while
/// permission is outstanding, zero redraw signals are emitted, and the
/// grant that follows reports as its combined redraw outcome exactly the
/// fold of replaying those events in original arrival order through the
/// `Active` dispatch.
pub proof fn lemma_buffered_replay(c: ControllerView, es: Seq<Event>)
    requires
        !c.permissions_granted,
        c.event_queue.len() == 0,
        forall|i: int|
            0 <= i < es.len() ==> !(#[trigger] es[i] matches Event::PermissionRequestResult(_)),
    ensures
        ({
            let (c1, rd1, cs1) = spec_feed(c, es);
            let (c2, rd2, cs2) = spec_step(
                c1,
                Event::PermissionRequestResult(PermissionStatus::Granted),
            );
            &&& rd1 == false
            &&& cs1 == Seq::<HostCommand>::empty()
            &&& rd2 == spec_redraw(
                crate::outcome::spec_fold(spec_replay_outcomes(c.renderer, es)),
            )
            &&& c2.permissions_granted
            &&& c2.event_queue.len() == 0
        }),
{
    lemma_buffering(c, es);
    let (c1, rd1, cs1) = spec_feed(c, es);
    assert(c1.event_queue =~= es);
    lemma_drain_is_fold(c.renderer, es);
}

/// Law: a permission denial always results in exactly one close command
/// and no transition to the permitted state, whatever the prior state; the
/// queued events are discarded and no redraw is signaled.
pub proof fn lemma_denial(c: ControllerView)
    ensures
        ({
            let (c2, rd, cs) = spec_step(
                c,
                Event::PermissionRequestResult(PermissionStatus::Denied),
            );
            &&& cs == seq![HostCommand::CloseSelf]
            &&& cs.len() == 1
            &&& !c2.permissions_granted
            &&& c2.event_queue.len() == 0
            &&& rd == false
            &&& c2.renderer == c.renderer
        }),
{
}

/// The permission-gated event controller, exclusively owned by one widget
/// instance and driven synchronously, one event per call.
#[derive(Debug)]
pub struct EventController {
    /// Whether the host has granted the permission request.
    pub permissions_granted: bool,
    /// Events buffered before permissions arrive, in arrival order; drained
    /// exactly once and never refilled.
    pub event_queue: Vec<Event>,
    /// The render state the permitted events act on.
    pub renderer: Renderer,
}

impl View for EventController {
    type V = ControllerView;

    open spec fn view(&self) -> ControllerView {
        ControllerView {
            permissions_granted: self.permissions_granted,
            event_queue: self.event_queue@,
            renderer: self.renderer@,
        }
    }
}

impl Default for EventController {
    /// The initial state: awaiting permission, empty queue, default render
    /// state.
    fn default() -> (r: Self)
        ensures
            !r@.permissions_granted,
            r@.event_queue.len() == 0,
            r@.renderer.mode == InputMode::Normal,
            r@.renderer.tabs.len() == 0,
            r@.wf(),
    {
        EventController {
            permissions_granted: false,
            event_queue: Vec::new(),
            renderer: Renderer::default(),
        }
    }
}

/// Finds the first tab flagged active, if any.
fn find_active(tabs: &Vec<TabInfo>) -> (r: Option<usize>)
    ensures
        match r {
            Some(i) => i < tabs@.len() && spec_first_active(tabs@) == Some(i as int),
            None => spec_first_active(tabs@) is None,
        },
{
    let mut i: usize = 0;
    while i < tabs.len()
        invariant
            i <= tabs@.len(),
            forall|j: int| 0 <= j < i ==> !tabs@[j].active,
        decreases tabs@.len() - i,
    {
        if tabs[i].active {
            proof {
                crate::renderer::lemma_first_active_found(tabs@, i as int);
            }
            return Some(i);
        }
        i = i + 1;
    }
    proof {
        crate::renderer::lemma_first_active_none(tabs@);
    }
    None
}

impl EventController {
    /// The startup commands for the host: request the permission set, then
    /// subscribe to the handled event kinds; if permissions were already
    /// granted, finish the permitted setup immediately.
    pub fn load(&self) -> (cmds: Vec<HostCommand>)
        ensures
            cmds@ == spec_load(self@),
    {
        let mut cmds: Vec<HostCommand> = Vec::new();
        cmds.push(HostCommand::RequestPermissions);
        cmds.push(HostCommand::Subscribe);
        if self.permissions_granted {
            cmds.push(HostCommand::SetSelectable(false));
        }
        proof {
            assert(cmds@ =~= spec_load(self@));
        }
        cmds
    }

    /// The `Active`-state dispatch of one non-permission event.
    fn dispatch_active(renderer: &mut Renderer, event: Event) -> (r: (
        EventLoopResult,
        Vec<HostCommand>,
    ))
        requires
            old(renderer)@.wf(),
            !(event matches Event::PermissionRequestResult(_)),
        ensures
            ({
                let (v2, res, cmds) = spec_active_step(old(renderer)@, event);
                &&& final(renderer)@ == v2
                &&& r.0 == res
                &&& r.1@ == cmds
            }),
            final(renderer)@.wf(),
    {
        match event {
            Event::ModeUpdate(mode) => {
                let fb = renderer.update_mode(mode);
                (Ok(fb), Vec::new())
            },
            Event::TabUpdate(tabs) => {
                match find_active(&tabs) {
                    Some(active_tab_idx) => {
                        let fb = renderer.update_tabs(active_tab_idx, tabs);
                        (Ok(fb), Vec::new())
                    },
                    None => {
                        // Host-contract violation: no tab flagged active.
                        // Recover locally: no mutation, no redraw; the shell
                        // logs it.
                        (Ok(FrameBuffer::NoUpdates), Vec::new())
                    },
                }
            },
            Event::LeftClick(col) => {
                let mut cmds: Vec<HostCommand> = Vec::new();
                match renderer.get_target_tab(col) {
                    Some(idx) => {
                        cmds.push(HostCommand::SwitchTab(idx));
                    },
                    None => {},
                }
                (Ok(FrameBuffer::NoUpdates), cmds)
            },
            Event::ScrollUp => {
                let mut cmds: Vec<HostCommand> = Vec::new();
                cmds.push(HostCommand::SwitchTab(renderer.get_next_tab_idx()));
                (Ok(FrameBuffer::NoUpdates), cmds)
            },
            Event::ScrollDown => {
                let mut cmds: Vec<HostCommand> = Vec::new();
                cmds.push(HostCommand::SwitchTab(renderer.get_prev_tab_idx()));
                (Ok(FrameBuffer::NoUpdates), cmds)
            },
            Event::Other => (Ok(FrameBuffer::NoUpdates), Vec::new()),
            Event::PermissionRequestResult(_) => vstd::pervasive::unreached(),
        }
    }

    /// Handles one inbound host event: buffers it while permission is
    /// outstanding, drains the buffer on a grant, closes on a denial, and
    /// otherwise dispatches it to the render state or to command emission.
    /// Returns the redraw signal for the host and the commands to execute,
    /// in order.
    ///
    /// The host is contracted to send the permission result at most once,
    /// so a grant can only arrive while permission is still outstanding;
    /// the caller upholds that.
    pub fn update(&mut self, event: Event) -> (r: (bool, Vec<HostCommand>))
        requires
            old(self)@.wf(),
            !(old(self)@.permissions_granted && event matches Event::PermissionRequestResult(
                PermissionStatus::Granted,
            )),
        ensures
            ({
                let (c2, redraw, cmds) = spec_step(old(self)@, event);
                &&& final(self)@ == c2
                &&& r.0 == redraw
                &&& r.1@ == cmds
            }),
            final(self)@.wf(),
    {
        match event {
            Event::PermissionRequestResult(PermissionStatus::Granted) => {
                self.permissions_granted = true;
                let mut cmds: Vec<HostCommand> = Vec::new();
                cmds.push(HostCommand::SetSelectable(false));
                let mut q: Vec<Event> = Vec::new();
                core::mem::swap(&mut self.event_queue, &mut q);
                let ghost v0 = self.renderer@;
                let ghost q0 = q@;
                proof {
                    assert(spec_drain(v0, q0).2 =~= Seq::<HostCommand>::empty() + spec_drain(
                        v0,
                        q0,
                    ).2);
                }
                let mut acc = FrameBuffer::NoUpdates;
                let mut dcmds: Vec<HostCommand> = Vec::new();
                while q.len() > 0
                    invariant
                        self.permissions_granted,
                        self.event_queue@.len() == 0,
                        self.renderer@.wf(),
                        queue_ok(q@),
                        cmds@ == seq![HostCommand::SetSelectable(false)],
                        spec_drain(v0, q0).0 == spec_drain(self.renderer@, q@).0,
                        spec_drain(v0, q0).1 == spec_or_result(
                            acc,
                            spec_drain(self.renderer@, q@).1,
                        ),
                        spec_drain(v0, q0).2 == dcmds@ + spec_drain(self.renderer@, q@).2,
                    decreases q@.len(),
                {
                    let ghost qpre = q@;
                    let ev = q.remove(0);
                    proof {
                        assert(q@ =~= qpre.drop_first());
                    }
                    let (res, mut c1) = Self::dispatch_active(&mut self.renderer, ev);
                    dcmds.append(&mut c1);
                    match res {
                        Ok(fb) => {
                            acc = acc.combine(fb);
                            proof {
                                let (v2, r2, c2) = spec_drain(self.renderer@, q@);
                                assert(dcmds@ + c2 =~= spec_drain(v0, q0).2);
                            }
                        },
                        Err(_) => {
                            // The first error short-circuits the drain; the
                            // remaining buffered events are discarded.
                            cmds.append(&mut dcmds);
                            proof {
                                assert(cmds@ =~= seq![HostCommand::SetSelectable(false)]
                                    + spec_drain(v0, q0).2);
                            }
                            return (true, cmds);
                        },
                    }
                }
                proof {
                    assert(q@ =~= Seq::<Event>::empty());
                    assert(dcmds@ + spec_drain(self.renderer@, q@).2 =~= dcmds@);
                }
                cmds.append(&mut dcmds);
                proof {
                    assert(cmds@ =~= seq![HostCommand::SetSelectable(false)] + spec_drain(
                        v0,
                        q0,
                    ).2);
                }
                let redraw = acc.as_bool();
                (redraw, cmds)
            },
            Event::PermissionRequestResult(PermissionStatus::Denied) => {
                // Prior queued events are discarded; the widget becomes
                // inert and asks the host to close it.
                self.permissions_granted = false;
                self.event_queue.clear();
                let mut cmds: Vec<HostCommand> = Vec::new();
                cmds.push(HostCommand::CloseSelf);
                proof {
                    assert(cmds@ =~= seq![HostCommand::CloseSelf]);
                }
                (false, cmds)
            },
            other => {
                if !self.permissions_granted {
                    // Buffering produces no frame change by construction:
                    // nothing has been rendered yet.
                    self.event_queue.push(other);
                    (false, Vec::new())
                } else {
                    let (res, cmds) = Self::dispatch_active(&mut self.renderer, other);
                    let redraw = match res {
                        Ok(fb) => fb.as_bool(),
                        Err(_) => true,
                    };
                    (redraw, cmds)
                }
            },
        }
    }
}

} // verus!
