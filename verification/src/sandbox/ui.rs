//! What the tool window shows, and what its buttons do.

use vstd::prelude::*;
use crate::model::{Mode, Tool, ToolEvent};
use super::{Sandbox, SandboxView};

verus! {

/// A button of the tool window.
#[derive(Clone, Copy, Debug, PartialEq, Eq)]
pub struct ToolButton {
    pub tool: Tool,
    pub label: &'static str,
    /// The button can be pressed.
    pub enabled: bool,
}

/// The content of the tool window.
#[derive(Debug)]
pub struct ToolWindow {
    /// The line that names the mode.
    pub status: &'static str,
    /// One button for each tool.
    pub buttons: Vec<ToolButton>,
}

/// The line that names the mode.
pub open spec fn status_of(mode: Mode) -> Seq<char> {
    match mode {
        Mode::Default => "Mode: Default"@,
        Mode::Create => "Mode: Create"@,
        Mode::Modify => "Mode: Modify"@,
    }
}

/// The tool activations that the pressed buttons send: one for each, while
/// the buttons are enabled.
pub open spec fn button_requests(mode: Mode, clicked: Seq<Tool>) -> Seq<ToolEvent> {
    if mode is Default {
        clicked.map_values(|tool: Tool| ToolEvent { tool })
    } else {
        Seq::empty()
    }
}

/// The line that names the mode.
pub fn status_label(mode: Mode) -> (label: &'static str)
    ensures
        label@ == status_of(mode),
{
    match mode {
        Mode::Default => "Mode: Default",
        Mode::Create => "Mode: Create",
        Mode::Modify => "Mode: Modify",
    }
}

/// Lays out the tool window and takes the presses of its buttons. The
/// buttons are enabled in `Default` mode only; `clicked` are the tools whose
/// buttons were pressed, and each press of an enabled button asks for its
/// tool.
pub fn update_ui(sandbox: &mut Sandbox, clicked: &Vec<Tool>) -> (window: ToolWindow)
    requires
        old(sandbox).wf(),
    ensures
        final(sandbox).wf(),
        final(sandbox)@ == (SandboxView {
            tool_events: old(sandbox)@.tool_events + button_requests(
                old(sandbox)@.mode,
                clicked@,
            ),
            ..old(sandbox)@
        }),
        window.status@ == status_of(old(sandbox)@.mode),
        window.buttons@.len() == Tool::all_tools().len(),
        forall|i: int|
            0 <= i < window.buttons@.len() ==> {
                &&& (#[trigger] window.buttons@[i]).tool == Tool::all_tools()[i]
                &&& window.buttons@[i].label@ == Tool::all_tools()[i].label_of()
                &&& window.buttons@[i].enabled == (old(sandbox)@.mode is Default)
            },
{
    let mode = sandbox.mode;
    let enabled = mode == Mode::Default;
    let tools = Tool::all();
    let mut buttons: Vec<ToolButton> = Vec::new();
    let mut i: usize = 0;
    while i < tools.len()
        invariant
            i <= tools.len(),
            tools@ == Tool::all_tools(),
            buttons@.len() == i,
            forall|k: int|
                0 <= k < i ==> {
                    &&& (#[trigger] buttons@[k]).tool == tools@[k]
                    &&& buttons@[k].label@ == tools@[k].label_of()
                    &&& buttons@[k].enabled == enabled
                },
        decreases tools.len() - i,
    {
        let tool = tools[i];
        buttons.push(ToolButton { tool, label: tool.label(), enabled });
        i = i + 1;
    }
    if enabled {
        let mut k: usize = 0;
        while k < clicked.len()
            invariant
                k <= clicked.len(),
                sandbox.wf(),
                sandbox@ == (SandboxView {
                    tool_events: old(sandbox)@.tool_events + clicked@.take(k as int).map_values(
                        |tool: Tool| ToolEvent { tool },
                    ),
                    ..old(sandbox)@
                }),
            decreases clicked.len() - k,
        {
            sandbox.send_tool_event(clicked[k]);
            proof {
                let sent = clicked@.take(k as int).map_values(|tool: Tool| ToolEvent { tool });
                assert((old(sandbox)@.tool_events + sent).push(ToolEvent { tool: clicked@[k as int] })
                    =~= old(sandbox)@.tool_events + clicked@.take(k + 1).map_values(
                    |tool: Tool| ToolEvent { tool },
                ));
            }
            k = k + 1;
        }
        proof {
            assert(clicked@.take(clicked@.len() as int) =~= clicked@);
        }
    }
    ToolWindow { status: status_label(mode), buttons }
}

} // verus!
