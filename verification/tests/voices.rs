use plinken_wclap::voices::{find_voice, LoopMode, VoiceAlloc, VoiceSlot, VoiceState};

#[test]
fn stealing_prefers_idle_then_oldest_releasing() {
    let mut pool = VoiceAlloc::new(2);
    pool.note_on(60, 0, LoopMode::NoLoop);
    pool.note_on(61, 0, LoopMode::NoLoop);
    pool.note_off(60); // 60 releasing (older)
    pool.note_off(61); // 61 releasing (newer)
    let idx = pool.note_on(62, 0, LoopMode::NoLoop);
    // Voice 0 (note 60) was the oldest releasing: it gets stolen.
    assert_eq!(idx, 0);
}

#[test]
fn with_every_voice_playing_the_oldest_is_stolen() {
    let mut pool = VoiceAlloc::new(2);
    pool.note_on(60, 0, LoopMode::OneShot);
    pool.note_on(61, 0, LoopMode::OneShot);
    assert_eq!(pool.note_on(62, 0, LoopMode::OneShot), 0);
    assert_eq!(pool.note_on(63, 0, LoopMode::OneShot), 1);
}

#[test]
fn same_note_retriggers_its_voice() {
    let mut pool = VoiceAlloc::new(4);
    assert_eq!(pool.note_on(60, 0, LoopMode::NoLoop), 0);
    assert_eq!(pool.note_on(64, 0, LoopMode::NoLoop), 1);
    assert_eq!(pool.note_on(60, 0, LoopMode::NoLoop), 0);
    assert_eq!(pool.slots[0].age, 3);
    assert_eq!(pool.next_age, 4);
}

#[test]
fn one_shots_ignore_note_off() {
    let mut pool = VoiceAlloc::new(2);
    pool.note_on(36, 1, LoopMode::OneShot);
    pool.note_off(36);
    assert_eq!(pool.slots[0].state, VoiceState::Playing);
    pool.note_on(38, 2, LoopMode::NoLoop);
    pool.note_off(38);
    assert_eq!(pool.slots[1].state, VoiceState::Release);
}

#[test]
fn choke_tag_spares_the_excepted_voice() {
    let mut pool = VoiceAlloc::new(3);
    let a = pool.note_on(42, 7, LoopMode::OneShot);
    let b = pool.note_on(46, 7, LoopMode::OneShot);
    let c = pool.note_on(36, 1, LoopMode::OneShot);
    pool.choke_tag(7, b);
    assert_eq!(pool.slots[a].state, VoiceState::Release);
    assert_eq!(pool.slots[b].state, VoiceState::Playing);
    assert_eq!(pool.slots[c].state, VoiceState::Playing);
    assert_eq!(pool.active_count(), 3);
    pool.all_notes_off();
    assert_eq!(pool.active_count(), 0);
}

#[test]
fn finished_voice_is_idle_and_reused_first() {
    let mut pool = VoiceAlloc::new(3);
    pool.note_on(60, 0, LoopMode::NoLoop);
    pool.note_on(61, 0, LoopMode::NoLoop);
    pool.note_on(62, 0, LoopMode::NoLoop);
    pool.finished(1);
    assert_eq!(pool.note_on(70, 0, LoopMode::NoLoop), 1);
    pool.choke_note(70);
    assert_eq!(pool.slots[1].state, VoiceState::Release);
    pool.choke_all();
    assert!(pool.slots.iter().all(|s| s.state == VoiceState::Release));
}

#[test]
fn oldest_releasing_beats_older_playing() {
    let slots = vec![
        VoiceSlot { state: VoiceState::Playing, note: 1, age: 1, tag: 0, loop_mode: LoopMode::NoLoop },
        VoiceSlot { state: VoiceState::Release, note: 2, age: 5, tag: 0, loop_mode: LoopMode::NoLoop },
        VoiceSlot { state: VoiceState::Release, note: 3, age: 4, tag: 0, loop_mode: LoopMode::NoLoop },
    ];
    assert_eq!(find_voice(&slots, 9), 2);
    assert_eq!(find_voice(&slots, 1), 0);
    assert_eq!(find_voice(&vec![], 1), 0);
}

#[test]
fn pool_has_at_least_one_voice() {
    let pool = VoiceAlloc::new(0);
    assert_eq!(pool.slots.len(), 1);
}
