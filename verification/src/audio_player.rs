//! Playing generated audio: where the player is in the samples and what it asks of the output.
use vstd::prelude::*;

verus! {

/// A position in a list of samples.
#[derive(Clone, Copy, Debug, PartialEq, Eq, Structural)]
pub struct SampleCursor {
    pub position: usize,
    pub length: usize,
}

/// The position of the next sample, when there is one.
pub open spec fn next_sample(cursor: SampleCursor) -> Option<usize> {
    if cursor.position < cursor.length {
        Some(cursor.position)
    } else {
        None
    }
}

/// The cursor at a sample, or at the end when there are not so many.
pub open spec fn at_sample(cursor: SampleCursor, sample: usize) -> SampleCursor {
    SampleCursor {
        position: if sample <= cursor.length {
            sample
        } else {
            cursor.length
        },
        length: cursor.length,
    }
}

impl SampleCursor {
    /// The position never leaves the samples.
    pub open spec fn well_formed(self) -> bool {
        self.position <= self.length
    }

    /// The beginning of a list of samples.
    pub fn new(length: usize) -> (cursor: Self)
        ensures
            cursor == (SampleCursor { position: 0, length }),
            cursor.well_formed(),
    {
        SampleCursor { position: 0, length }
    }

    /// The position of the next sample, when there is one.
    pub fn next(&mut self) -> (at: Option<usize>)
        requires
            old(self).well_formed(),
        ensures
            final(self).well_formed(),
            final(self).length == old(self).length,
            at == next_sample(*old(self)),
            final(self).position == (if at is Some {
                old(self).position + 1
            } else {
                old(self).position as int
            }),
    {
        if self.position >= self.length {
            return None;
        }
        let at: usize = self.position;
        self.position = at + 1;
        Some(at)
    }

    /// How many samples are left.
    pub fn remaining(&self) -> (count: usize)
        requires
            self.well_formed(),
        ensures
            count == self.length - self.position,
    {
        self.length - self.position
    }

    /// Goes to a sample, or to the end when there are not so many.
    pub fn seek(&mut self, sample: usize)
        ensures
            final(self).well_formed(),
            *final(self) == at_sample(*old(self), sample),
    {
        self.position = if sample <= self.length {
            sample
        } else {
            self.length
        };
    }
}

/// Whether there is anything to play.
pub fn check_audio(samples: usize, sample_rate: u32) -> (checked: Result<(), String>)
    ensures
        match checked {
            Ok(()) => samples > 0 && sample_rate > 0,
            Err(error) => (samples == 0 || sample_rate == 0) && error@
                == "生成的音频没有可播放的采样。"@,
        },
{
    if samples == 0 || sample_rate == 0 {
        return Err("生成的音频没有可播放的采样。".to_string());
    }
    Ok(())
}

/// The output plays: it is not paused and has something to play.
pub open spec fn is_playing(paused: bool, empty: bool) -> bool {
    !paused && !empty
}

/// What is asked of the output.
#[derive(Clone, Copy, Debug, PartialEq, Eq, Structural)]
pub struct OutputStep {
    /// Pause.
    pub pause: bool,
    /// Begin anew with all samples.
    pub reset: bool,
    /// Play.
    pub play: bool,
}

/// Whether the user has ever started the player.
#[derive(Clone, Copy, Debug, PartialEq, Eq, Structural)]
pub struct Playback {
    pub has_started: bool,
}

impl Playback {
    /// A player that was not started yet.
    pub fn new() -> (playback: Self)
        ensures
            !playback.has_started,
    {
        Playback { has_started: false }
    }

    /// Pauses what plays, and plays what is paused; what has come to its end is played again.
    pub fn toggle(&mut self, paused: bool, empty: bool) -> (step: OutputStep)
        ensures
            step == (OutputStep {
                pause: is_playing(paused, empty),
                reset: empty,
                play: !is_playing(paused, empty),
            }),
            final(self).has_started == (old(self).has_started || !is_playing(paused, empty)),
    {
        if !paused && !empty {
            return OutputStep { pause: true, reset: false, play: false };
        }
        self.has_started = true;
        OutputStep { pause: false, reset: empty, play: true }
    }

    /// Plays from the beginning.
    pub fn restart(&mut self) -> (step: OutputStep)
        ensures
            step == (OutputStep { pause: false, reset: true, play: true }),
            final(self).has_started,
    {
        self.has_started = true;
        OutputStep { pause: false, reset: true, play: true }
    }

    /// What is asked of the output around a jump: what has come to its end begins anew before it,
    /// and what has played goes on behind it, unless it leads to the end.
    pub fn jump(&self, paused: bool, empty: bool, to_the_end: bool) -> (step: OutputStep)
        ensures
            step == (OutputStep {
                pause: false,
                reset: empty,
                play: is_playing(paused, empty) && !to_the_end,
            }),
    {
        OutputStep { pause: false, reset: empty, play: !paused && !empty && !to_the_end }
    }

    /// Records a jump. One to the beginning does not start the player.
    pub fn jumped(&mut self, to_the_beginning: bool)
        ensures
            final(self).has_started == (old(self).has_started || !to_the_beginning),
    {
        self.has_started = !to_the_beginning || self.has_started;
    }

    /// Whether the end is shown as the position: the audio has been played to its end.
    pub fn shows_end(&self, empty: bool) -> (end: bool)
        ensures
            end == (empty && self.has_started),
    {
        empty && self.has_started
    }
}

/// After a jump the next sample is the one that was jumped to; behind the end there is none.
pub proof fn a_jump_leads_to_its_sample(cursor: SampleCursor, sample: usize)
    ensures
        next_sample(at_sample(cursor, sample)) == (if sample < cursor.length {
            Some(sample)
        } else {
            None
        }),
{
}

} // verus!
