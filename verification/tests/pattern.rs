use euphony::pattern::rng;
use euphony::pattern::{rest, Hold, HoldValue, Rest};

#[test]
fn hold_keeps_its_value() {
    let h = Hold::new(5u32);
    assert_eq!(*h.get(), 5);
    let h2 = 7u8.hold();
    assert_eq!(*h2.get(), 7);
    let _r: Rest<u8> = rest();
    let _r2: Rest<u8> = Rest::new();
}

#[test]
fn rng_known_values() {
    assert_eq!(rng::get((0, 1), 0, 0), 0xa653eed7d674bcf9);
    assert_eq!(rng::get((3, 4), 2, 123), 0xb48d96be5a4838bf);
    // the same inputs give the same number
    assert_eq!(rng::get((3, 4), 2, 123), rng::get((3, 4), 2, 123));
    assert_ne!(rng::get((3, 4), 2, 123), rng::get((3, 4), 2, 124));
}

#[test]
fn rng_state_steps() {
    let mut state = rng::State::new((0, 1), 0, 0);
    // the splitmix64 finalizer of 0 with its own constants
    assert_eq!(state.0[1], 0xe220a8397b1dcdaf);
    let first = state.next_u64();
    assert_eq!(first, 0xa653eed7d674bcf9);
    let second = state.next_u32();
    let mut again = rng::State::new((0, 1), 0, 0);
    again.rotate();
    again.rotate();
    assert_eq!(second, again.read() as u32);
}
