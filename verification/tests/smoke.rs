use chevalchemy::progress::Effect;
use chevalchemy::smoke::{smoke, PUFFS_PER_BURST, SMOKE_FRAMES};

#[test]
fn smoke_has_ten_puffs_on_the_sheet() {
    assert_eq!(PUFFS_PER_BURST, 10);
    assert_eq!(SMOKE_FRAMES, 4);
    for tint in [Effect::Positive, Effect::Negative] {
        for _ in 0..100 {
            let puffs = smoke(tint);
            assert_eq!(puffs.len(), 10);
            for puff in puffs {
                assert!(puff.frame < 4);
                assert_eq!(puff.tint, tint);
            }
        }
    }
}

#[test]
fn smoke_shows_more_than_one_frame() {
    let mut seen = [false; 4];
    for _ in 0..200 {
        for puff in smoke(Effect::Positive) {
            seen[puff.frame as usize] = true;
        }
    }
    assert!(seen.iter().filter(|s| **s).count() > 1);
}
