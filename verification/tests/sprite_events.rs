use vm_rust::sprite_events::{BehaviorDispatch, DispatchAction, DispatchEvent};
use vm_rust::datum::{CastMemberRef, ScriptErrorCode};
use vm_rust::events::ScriptInstanceRef;
use vm_rust::sprite_events::{
    begin_sprite_targets, behavior_targets, dispatch_allowed, end_sprite_targets, error_stops_dispatch, Behavior,
    ChannelSprite, FilmLoopChannels, ScoreRef,
};

fn b(id: u32, begun: bool) -> Behavior {
    Behavior { instance: ScriptInstanceRef { id }, begin_sprite_called: begun }
}

fn ch(number: usize, entered: bool, puppet: bool, behaviors: Vec<Behavior>) -> ChannelSprite {
    ChannelSprite { number, sprite_number: number as u16, entered, puppet, behaviors }
}

fn stage() -> Vec<ChannelSprite> {
    vec![
        ch(0, true, false, vec![b(1, false)]),
        ch(1, true, false, vec![b(2, false), b(3, true)]),
        ch(2, false, true, vec![b(4, false)]),
        ch(3, false, false, vec![b(5, false)]),
        ch(4, true, false, vec![]),
    ]
}

fn film_loop() -> FilmLoopChannels {
    FilmLoopChannels {
        member: CastMemberRef { cast_lib: 1, cast_member: 8 },
        channels: vec![ch(0, true, false, vec![b(6, false)]), ch(1, true, false, vec![b(7, false)]), ch(2, false, true, vec![b(9, false)])],
    }
}

#[test]
fn all_behaviors_of_entered_or_puppet_sprites() {
    let t = behavior_targets(&stage(), &vec![film_loop()]);
    let picked: Vec<(bool, usize, Vec<u32>)> = t
        .iter()
        .map(|s| (matches!(s.score, ScoreRef::Stage), s.number, s.behaviors.iter().map(|r| r.id).collect()))
        .collect();
    assert_eq!(picked, vec![(true, 1, vec![2, 3]), (true, 2, vec![4]), (false, 1, vec![7])]);
    assert!(dispatch_allowed(false, false));
    assert!(!dispatch_allowed(true, false));
    assert!(!dispatch_allowed(false, true));
    assert!(error_stops_dispatch(ScriptErrorCode::Abort));
    assert!(!error_stops_dispatch(ScriptErrorCode::Generic));
}

#[test]
fn begin_sprite_skips_sprites_already_begun() {
    let mut s = stage();
    s.push(ch(5, true, false, vec![b(10, false), b(11, false)]));
    let t = begin_sprite_targets(&s, &vec![film_loop()]);
    assert!(t.frame);
    let behaviors: Vec<(usize, u32)> = t.behaviors.iter().map(|(_, n, r)| (*n, r.id)).collect();
    assert_eq!(behaviors, vec![(5, 10), (5, 11), (1, 7)]);
    let channels: Vec<(bool, u32)> = t.channels.iter().map(|(s, n)| (matches!(s, ScoreRef::Stage), *n)).collect();
    assert_eq!(channels, vec![(true, 0), (true, 5), (false, 1)]);
}

#[test]
fn end_sprite_once_per_channel_named() {
    let (sprites, frame) = end_sprite_targets(&vec![2, 1, 2, 4, 9, 0], &stage());
    let got: Vec<(u16, Vec<u32>)> = sprites.iter().map(|(n, v)| (*n, v.iter().map(|r| r.id).collect())).collect();
    assert_eq!(got, vec![(2, vec![4]), (1, vec![2, 3])]);
    assert!(frame);
    let (sprites, frame) = end_sprite_targets(&vec![3], &stage());
    assert_eq!(sprites.len(), 1);
    assert!(!frame);
}

#[test]
fn behavior_dispatch_steps_through_sprites_and_stops_on_abort() {
    let t = behavior_targets(&stage(), &vec![]);
    // Sprite 1 has behaviors 2 and 3; sprite 2 has behavior 4.
    let mut d = BehaviorDispatch::start();
    let mut trace = Vec::new();
    let mut a = d.step(&t, DispatchEvent::Done);
    loop {
        let ev = match a {
            DispatchAction::EnterScore(_) => {
                trace.push("enter".to_string());
                DispatchEvent::Done
            }
            DispatchAction::Invoke(n, b) => {
                trace.push(format!("call {} {}", n, b.id));
                if b.id == 2 { DispatchEvent::Invoked(Some(ScriptErrorCode::Generic)) } else { DispatchEvent::Invoked(None) }
            }
            DispatchAction::Report => {
                trace.push("report".to_string());
                DispatchEvent::Done
            }
            DispatchAction::LeaveScore => {
                trace.push("leave".to_string());
                DispatchEvent::Done
            }
            DispatchAction::Finished => {
                trace.push("finished".to_string());
                break;
            }
            DispatchAction::Aborted => {
                trace.push("aborted".to_string());
                break;
            }
        };
        a = d.step(&t, ev);
    }
    assert_eq!(trace, vec!["enter", "call 1 2", "report", "call 1 3", "leave", "enter", "call 2 4", "leave", "finished"]);
    let mut d = BehaviorDispatch::start();
    assert!(matches!(d.step(&t, DispatchEvent::Done), DispatchAction::EnterScore(ScoreRef::Stage)));
    assert!(matches!(d.step(&t, DispatchEvent::Done), DispatchAction::Invoke(1, _)));
    assert!(matches!(d.step(&t, DispatchEvent::Invoked(Some(ScriptErrorCode::Abort))), DispatchAction::Aborted));
    assert!(matches!(d.step(&t, DispatchEvent::Done), DispatchAction::Finished));
}
