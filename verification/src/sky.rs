//! The day/night toggle: which sky and which light the keys held down in a
//! frame ask for.

use crate::color::Color;
use vstd::prelude::*;

verus! {

/// A key as the toggle sees it.
#[derive(Debug, Clone, Copy, PartialEq, Eq, Structural)]
pub enum SkyKey {
    /// The key that asks for night.
    Night,
    /// The key that asks for day.
    Day,
    /// Any other key.
    Other,
}

/// The two settings of sky and light.
#[derive(Debug, Clone, Copy, PartialEq, Eq, Structural)]
pub enum TimeOfDay {
    Day,
    Night,
}

impl TimeOfDay {
    /// The background color of the setting.
    pub open spec fn spec_sky_color(self) -> Color {
        match self {
            TimeOfDay::Day => Color { r: 68, g: 142, b: 228 },
            TimeOfDay::Night => Color { r: 10, g: 10, b: 50 },
        }
    }

    /// The color of the light in the setting.
    pub open spec fn spec_light_color(self) -> Color {
        match self {
            TimeOfDay::Day => Color { r: 255, g: 255, b: 255 },
            TimeOfDay::Night => Color { r: 150, g: 150, b: 200 },
        }
    }

    /// The intensity of the light in the setting, in hundredths.
    pub open spec fn spec_light_percent(self) -> u8 {
        match self {
            TimeOfDay::Day => 100,
            TimeOfDay::Night => 30,
        }
    }

    /// The background color: sky blue by day, a dark blue by night.
    pub fn sky_color(&self) -> (color: Color)
        ensures
            color == self.spec_sky_color(),
    {
        match self {
            TimeOfDay::Day => Color::new(68, 142, 228),
            TimeOfDay::Night => Color::new(10, 10, 50),
        }
    }

    /// The color of the light: white by day, a cold blue-grey by night.
    pub fn light_color(&self) -> (color: Color)
        ensures
            color == self.spec_light_color(),
    {
        match self {
            TimeOfDay::Day => Color::new(255, 255, 255),
            TimeOfDay::Night => Color::new(150, 150, 200),
        }
    }

    /// The intensity of the light in hundredths: full by day, 30 by night.
    pub fn light_percent(&self) -> (percent: u8)
        ensures
            percent == self.spec_light_percent(),
    {
        match self {
            TimeOfDay::Day => 100,
            TimeOfDay::Night => 30,
        }
    }
}

/// The setting that the last toggle key in `keys` asks for; `None` where
/// `keys` holds no toggle key.
pub open spec fn last_choice(keys: Seq<SkyKey>) -> Option<TimeOfDay>
    decreases keys.len(),
{
    if keys.len() == 0 {
        None
    } else {
        match keys.last() {
            SkyKey::Night => Some(TimeOfDay::Night),
            SkyKey::Day => Some(TimeOfDay::Day),
            SkyKey::Other => last_choice(keys.drop_last()),
        }
    }
}

/// Goes through the keys in order and lets each toggle key overrule the
/// ones before it. Returns the setting to switch to, or `None` to leave sky
/// and light as they are.
pub fn handle_sky_color(keys: &Vec<SkyKey>) -> (choice: Option<TimeOfDay>)
    ensures
        choice == last_choice(keys@),
{
    let mut choice: Option<TimeOfDay> = None;
    let mut i: usize = 0;
    while i < keys.len()
        invariant
            i <= keys@.len(),
            choice == last_choice(keys@.take(i as int)),
        decreases keys@.len() - i,
    {
        proof {
            let seen = keys@.take(i + 1);
            assert(seen.last() == keys@[i as int]);
            assert(seen.drop_last() =~= keys@.take(i as int));
        }
        match keys[i] {
            SkyKey::Night => {
                choice = Some(TimeOfDay::Night);
            },
            SkyKey::Day => {
                choice = Some(TimeOfDay::Day);
            },
            SkyKey::Other => {},
        }
        i += 1;
    }
    proof {
        assert(keys@.take(keys@.len() as int) =~= keys@);
    }
    choice
}

/// A toggle key at the end decides alone, and keys that are no toggle keys
/// change nothing wherever they stand.
pub proof fn lemma_last_toggle_wins(keys: Seq<SkyKey>, key: SkyKey)
    ensures
        key == SkyKey::Night ==> last_choice(keys.push(key)) == Some(TimeOfDay::Night),
        key == SkyKey::Day ==> last_choice(keys.push(key)) == Some(TimeOfDay::Day),
        key == SkyKey::Other ==> last_choice(keys.push(key)) == last_choice(keys),
{
    assert(keys.push(key).last() == key);
    assert(keys.push(key).drop_last() =~= keys);
}

} // verus!
