//! Engine and audio configuration records, loaded from disk by the driver.

use vstd::prelude::*;

verus! {

#[derive(Debug, Clone, Copy, PartialEq, Eq, Structural)]
pub struct GameEngineConfig {
    pub show_gizmos: bool,
}

impl Default for GameEngineConfig {
    fn default() -> (c: GameEngineConfig)
        ensures
            c == (GameEngineConfig { show_gizmos: false }),
    {
        GameEngineConfig { show_gizmos: false }
    }
}

#[derive(Debug, Clone, Copy, PartialEq, Eq, Structural)]
pub struct AudioConfig {
    pub background_volume: u32,
    pub effects_volume: u32,
    pub channel_nb: usize,
}

impl Default for AudioConfig {
    fn default() -> (c: AudioConfig)
        ensures
            c == (AudioConfig { background_volume: 100u32, effects_volume: 100u32, channel_nb: 15usize }),
    {
        AudioConfig { background_volume: 100, effects_volume: 100, channel_nb: 15 }
    }
}

} // verus!
