//! The steps of the encode test session: load the emulator core, load the
//! ROM named on the command line, attach the four plugins, run the emulator
//! to the end, and detach the plugins again. A runner performs the steps in
//! order and stops at the first one that fails.

use vstd::prelude::*;
use vstd::string::*;

verus! {

/// The plugin slots of the emulator core.
#[derive(PartialEq, Eq, Structural, Clone, Copy, Debug)]
pub enum PluginKind {
    Graphics,
    Audio,
    Input,
    Rsp,
}

/// One step of a session.
pub enum SessionStep {
    /// Load the core library at this path.
    LoadCore(String),
    /// Open the ROM at this path.
    LoadRom(String),
    /// Print this progress line.
    Report(String),
    /// Load the plugin library at `library` and attach it to slot `kind`.
    Attach { kind: PluginKind, library: String },
    /// Run the emulator until it stops.
    Execute,
    /// Detach the plugin in slot `kind`.
    Detach(PluginKind),
}

/// A session step with its strings taken by their characters.
pub enum StepView {
    LoadCore(Seq<char>),
    LoadRom(Seq<char>),
    Report(Seq<char>),
    Attach { kind: PluginKind, library: Seq<char> },
    Execute,
    Detach(PluginKind),
}

impl View for SessionStep {
    type V = StepView;

    open spec fn view(&self) -> StepView {
        match self {
            SessionStep::LoadCore(p) => StepView::LoadCore(p@),
            SessionStep::LoadRom(p) => StepView::LoadRom(p@),
            SessionStep::Report(m) => StepView::Report(m@),
            SessionStep::Attach { kind, library } => StepView::Attach {
                kind: *kind,
                library: library@,
            },
            SessionStep::Execute => StepView::Execute,
            SessionStep::Detach(k) => StepView::Detach(*k),
        }
    }
}

/// The plugins of the session, in the order they are attached and detached.
pub open spec fn session_plugins() -> Seq<(PluginKind, Seq<char>)> {
    seq![
        (PluginKind::Graphics, "/usr/lib/mupen64plus/mupen64plus-video-rice.so"@),
        (PluginKind::Audio, "/usr/lib/mupen64plus/mupen64plus-audio-sdl.so"@),
        (PluginKind::Input, "/usr/lib/mupen64plus/mupen64plus-input-sdl.so"@),
        (PluginKind::Rsp, "/usr/lib/mupen64plus/mupen64plus-rsp-hle.so"@),
    ]
}

/// The steps of the session for the ROM at `rom`.
pub open spec fn session_plan_of(rom: Seq<char>) -> Seq<StepView> {
    let plugins = session_plugins();
    seq![
        StepView::LoadCore("/usr/lib/libmupen64plus.so.2"@),
        StepView::LoadRom(rom),
        StepView::Report("Loaded ROM"@),
    ] + plugins.map_values(|p: (PluginKind, Seq<char>)| StepView::Attach { kind: p.0, library: p.1 })
        + seq![StepView::Report("Loaded plugins"@), StepView::Execute]
        + plugins.map_values(|p: (PluginKind, Seq<char>)| StepView::Detach(p.0))
}

/// The steps of the encode test session for the ROM at `rom`.
pub fn session_plan(rom: String) -> (plan: Vec<SessionStep>)
    ensures
        plan@.map_values(|s: SessionStep| s@) == session_plan_of(rom@),
        plan@.len() == 13,
        plan@[0]@ == StepView::LoadCore("/usr/lib/libmupen64plus.so.2"@),
        plan@[1]@ == StepView::LoadRom(rom@),
        plan@[2]@ == StepView::Report("Loaded ROM"@),
        plan@[3]@ == (StepView::Attach {
            kind: PluginKind::Graphics,
            library: "/usr/lib/mupen64plus/mupen64plus-video-rice.so"@,
        }),
        plan@[4]@ == (StepView::Attach {
            kind: PluginKind::Audio,
            library: "/usr/lib/mupen64plus/mupen64plus-audio-sdl.so"@,
        }),
        plan@[5]@ == (StepView::Attach {
            kind: PluginKind::Input,
            library: "/usr/lib/mupen64plus/mupen64plus-input-sdl.so"@,
        }),
        plan@[6]@ == (StepView::Attach {
            kind: PluginKind::Rsp,
            library: "/usr/lib/mupen64plus/mupen64plus-rsp-hle.so"@,
        }),
        plan@[7]@ == StepView::Report("Loaded plugins"@),
        plan@[8]@ == StepView::Execute,
        plan@[9]@ == StepView::Detach(PluginKind::Graphics),
        plan@[10]@ == StepView::Detach(PluginKind::Audio),
        plan@[11]@ == StepView::Detach(PluginKind::Input),
        plan@[12]@ == StepView::Detach(PluginKind::Rsp),
{
    let ghost rom_view = rom@;
    let mut plan: Vec<SessionStep> = Vec::new();
    plan.push(SessionStep::LoadCore(String::from_str("/usr/lib/libmupen64plus.so.2")));
    plan.push(SessionStep::LoadRom(rom));
    plan.push(SessionStep::Report(String::from_str("Loaded ROM")));
    plan.push(
        SessionStep::Attach {
            kind: PluginKind::Graphics,
            library: String::from_str("/usr/lib/mupen64plus/mupen64plus-video-rice.so"),
        },
    );
    plan.push(
        SessionStep::Attach {
            kind: PluginKind::Audio,
            library: String::from_str("/usr/lib/mupen64plus/mupen64plus-audio-sdl.so"),
        },
    );
    plan.push(
        SessionStep::Attach {
            kind: PluginKind::Input,
            library: String::from_str("/usr/lib/mupen64plus/mupen64plus-input-sdl.so"),
        },
    );
    plan.push(
        SessionStep::Attach {
            kind: PluginKind::Rsp,
            library: String::from_str("/usr/lib/mupen64plus/mupen64plus-rsp-hle.so"),
        },
    );
    plan.push(SessionStep::Report(String::from_str("Loaded plugins")));
    plan.push(SessionStep::Execute);
    plan.push(SessionStep::Detach(PluginKind::Graphics));
    plan.push(SessionStep::Detach(PluginKind::Audio));
    plan.push(SessionStep::Detach(PluginKind::Input));
    plan.push(SessionStep::Detach(PluginKind::Rsp));
    assert(plan@.map_values(|s: SessionStep| s@) =~= session_plan_of(rom_view));
    proof {
        let v = plan@.map_values(|s: SessionStep| s@);
        assert(v[0] == plan@[0]@);
        assert(v[1] == plan@[1]@);
        assert(v[2] == plan@[2]@);
        assert(v[3] == plan@[3]@);
        assert(v[4] == plan@[4]@);
        assert(v[5] == plan@[5]@);
        assert(v[6] == plan@[6]@);
        assert(v[7] == plan@[7]@);
        assert(v[8] == plan@[8]@);
        assert(v[9] == plan@[9]@);
        assert(v[10] == plan@[10]@);
        assert(v[11] == plan@[11]@);
        assert(v[12] == plan@[12]@);
    }
    plan
}

/// Every plugin the session attaches is detached after the emulator ran, in
/// the order of attachment, and the ROM is opened before any plugin is
/// attached.
pub proof fn session_detaches_what_it_attaches(rom: Seq<char>)
    ensures
        session_plan_of(rom).len() == 13,
        session_plan_of(rom)[1] == StepView::LoadRom(rom),
        session_plan_of(rom)[8] == StepView::Execute,
        forall|i: int|
            0 <= i < 4 ==> {
                &&& #[trigger] session_plan_of(rom)[3 + i] matches StepView::Attach { kind, .. }
                &&& session_plan_of(rom)[9 + i] == StepView::Detach(kind)
            },
{
    let plan = session_plan_of(rom);
    assert forall|i: int| 0 <= i < 4 implies {
        &&& #[trigger] plan[3 + i] matches StepView::Attach { kind, .. }
        &&& plan[9 + i] == StepView::Detach(kind)
    } by {
        assert(plan[3 + i] == StepView::Attach {
            kind: session_plugins()[i].0,
            library: session_plugins()[i].1,
        });
        assert(plan[9 + i] == StepView::Detach(session_plugins()[i].0));
    }
}

/// Only the ROM step depends on the ROM: for any two ROM paths the sessions
/// have the same length and agree at every other step; in particular the core
/// library loaded first is always `/usr/lib/libmupen64plus.so.2`.
pub proof fn session_steps_do_not_depend_on_rom(rom1: Seq<char>, rom2: Seq<char>)
    ensures
        session_plan_of(rom1).len() == session_plan_of(rom2).len(),
        forall|i: int|
            0 <= i < session_plan_of(rom1).len() && i != 1 ==> #[trigger] session_plan_of(rom1)[i]
                == session_plan_of(rom2)[i],
        session_plan_of(rom1)[0] == StepView::LoadCore("/usr/lib/libmupen64plus.so.2"@),
        session_plan_of(rom1)[1] == StepView::LoadRom(rom1),
{
    let p1 = session_plan_of(rom1);
    let p2 = session_plan_of(rom2);
    assert forall|i: int| 0 <= i < p1.len() && i != 1 implies #[trigger] p1[i] == p2[i] by {
        if 3 <= i < 7 {
            assert(p1[i] == StepView::Attach {
                kind: session_plugins()[i - 3].0,
                library: session_plugins()[i - 3].1,
            });
            assert(p2[i] == StepView::Attach {
                kind: session_plugins()[i - 3].0,
                library: session_plugins()[i - 3].1,
            });
        } else if 9 <= i < 13 {
            assert(p1[i] == StepView::Detach(session_plugins()[i - 9].0));
            assert(p2[i] == StepView::Detach(session_plugins()[i - 9].0));
        }
    }
}

} // verus!
