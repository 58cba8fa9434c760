use m64prs::session::{session_plan, PluginKind, SessionStep};

#[test]
fn session_plan_for_a_rom() {
    let plan = session_plan("game.z64".to_string());
    assert_eq!(plan.len(), 13);
    assert!(matches!(&plan[0], SessionStep::LoadCore(p) if p == "/usr/lib/libmupen64plus.so.2"));
    assert!(matches!(&plan[1], SessionStep::LoadRom(p) if p == "game.z64"));
    assert!(matches!(&plan[2], SessionStep::Report(m) if m == "Loaded ROM"));
    assert!(matches!(&plan[3], SessionStep::Attach { kind: PluginKind::Graphics, library }
        if library == "/usr/lib/mupen64plus/mupen64plus-video-rice.so"));
    assert!(matches!(&plan[4], SessionStep::Attach { kind: PluginKind::Audio, library }
        if library == "/usr/lib/mupen64plus/mupen64plus-audio-sdl.so"));
    assert!(matches!(&plan[5], SessionStep::Attach { kind: PluginKind::Input, library }
        if library == "/usr/lib/mupen64plus/mupen64plus-input-sdl.so"));
    assert!(matches!(&plan[6], SessionStep::Attach { kind: PluginKind::Rsp, library }
        if library == "/usr/lib/mupen64plus/mupen64plus-rsp-hle.so"));
    assert!(matches!(&plan[7], SessionStep::Report(m) if m == "Loaded plugins"));
    assert!(matches!(&plan[8], SessionStep::Execute));
}

#[test]
fn session_detaches_in_attach_order() {
    let plan = session_plan("x".to_string());
    let attached: Vec<PluginKind> = plan
        .iter()
        .filter_map(|s| match s {
            SessionStep::Attach { kind, .. } => Some(*kind),
            _ => None,
        })
        .collect();
    let detached: Vec<PluginKind> = plan
        .iter()
        .filter_map(|s| match s {
            SessionStep::Detach(kind) => Some(*kind),
            _ => None,
        })
        .collect();
    assert_eq!(attached, detached);
    assert_eq!(
        attached,
        vec![PluginKind::Graphics, PluginKind::Audio, PluginKind::Input, PluginKind::Rsp]
    );
}
