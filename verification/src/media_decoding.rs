//! Reading the sound of a recording: which track is read and what is done with what the decoder
//! answers.
use vstd::prelude::*;

use crate::file_names;
use crate::text;

verus! {

/// A file is read as MP3 when it is named so, whatever the case of the letters.
pub open spec fn named_mp3(file_name: Seq<char>) -> bool {
    match file_names::extension_of(file_name) {
        Some(extension) => text::ascii_lowered(extension) == text::ascii_lowered("mp3"@),
        None => false,
    }
}

/// Whether a file is read as MP3.
pub fn is_mp3(file_name: &str) -> (mp3: bool)
    ensures
        mp3 == named_mp3(file_name@),
{
    let chars = text::chars_of(file_name);
    match file_names::extension(chars.as_slice()) {
        Some(extension) => text::eq_ignore_ascii_case(extension, "mp3"),
        None => false,
    }
}

/// The first track that has a sample rate, at or after `from`.
pub open spec fn first_audio(rates: Seq<Option<u32>>, from: int) -> Option<int>
    decreases rates.len() - from,
{
    if from >= rates.len() {
        None
    } else if rates[from] is Some {
        Some(from)
    } else {
        first_audio(rates, from + 1)
    }
}

/// The track that is read and its sample rate, given the sample rates of all tracks: the first one
/// that has a rate, which the track of a picture has not.
pub fn audio_track(rates: &[Option<u32>]) -> (track: Result<(usize, u32), String>)
    ensures
        match track {
            Ok((at, rate)) => {
                &&& at < rates@.len()
                &&& first_audio(rates@, 0) == Some(at as int)
                &&& rates@[at as int] == Some(rate)
            },
            Err(error) => first_audio(rates@, 0) is None && error@
                == "No supported audio track was found in the selected media file."@,
        },
{
    let mut i: usize = 0;
    while i < rates.len()
        invariant
            i <= rates.len(),
            first_audio(rates@, 0) == first_audio(rates@, i as int),
        decreases rates.len() - i,
    {
        if let Some(rate) = rates[i] {
            return Ok((i, rate));
        }
        i += 1;
    }
    Err("No supported audio track was found in the selected media file.".to_string())
}

/// What comes back when the next packet is asked for.
#[derive(Debug)]
pub enum ReadAnswer {
    /// A packet of the given track.
    Packet(u32),
    /// The file has ended.
    EndOfFile,
    /// The format of the track changes.
    ResetRequired,
    /// Anything else went wrong.
    Failed(String),
}

/// What comes back when a packet is decoded.
#[derive(Debug)]
pub enum DecodeAnswer {
    Samples,
    /// The packet is damaged.
    Damaged,
    /// The file has ended.
    EndOfFile,
    /// Anything else went wrong.
    Failed(String),
}

/// What is done next.
#[derive(Debug)]
pub enum MediaStep {
    /// Use what came back.
    Take,
    /// Go on with the next packet.
    Skip,
    /// The recording has been read.
    Finish,
    /// The recording cannot be read.
    Fail(String),
}

/// What is done with a packet that was read: it is decoded when it belongs to the track that is
/// read.
pub fn after_read(answer: ReadAnswer, track_id: u32) -> (step: MediaStep)
    ensures
        match answer {
            ReadAnswer::Packet(id) => if id == track_id {
                step is Take
            } else {
                step is Skip
            },
            ReadAnswer::EndOfFile => step is Finish,
            ReadAnswer::ResetRequired => step matches MediaStep::Fail(error) && error@
                == "The media audio track changes format part-way through and cannot be transcribed."@,
            ReadAnswer::Failed(reason) => step matches MediaStep::Fail(error) && error@
                == "Could not read the media audio track: "@ + reason@,
        },
{
    match answer {
        ReadAnswer::Packet(id) => if id == track_id {
            MediaStep::Take
        } else {
            MediaStep::Skip
        },
        ReadAnswer::EndOfFile => MediaStep::Finish,
        ReadAnswer::ResetRequired => MediaStep::Fail(
            "The media audio track changes format part-way through and cannot be transcribed.".to_string(),
        ),
        ReadAnswer::Failed(reason) => MediaStep::Fail(
            "Could not read the media audio track: ".to_string().concat(reason.as_str()),
        ),
    }
}

/// What is done with a packet that was decoded: a damaged one is passed over.
pub fn after_decode(answer: DecodeAnswer) -> (step: MediaStep)
    ensures
        match answer {
            DecodeAnswer::Samples => step is Take,
            DecodeAnswer::Damaged => step is Skip,
            DecodeAnswer::EndOfFile => step is Finish,
            DecodeAnswer::Failed(reason) => step matches MediaStep::Fail(error) && error@
                == "Could not decode the media audio track: "@ + reason@,
        },
{
    match answer {
        DecodeAnswer::Samples => MediaStep::Take,
        DecodeAnswer::Damaged => MediaStep::Skip,
        DecodeAnswer::EndOfFile => MediaStep::Finish,
        DecodeAnswer::Failed(reason) => MediaStep::Fail(
            "Could not decode the media audio track: ".to_string().concat(reason.as_str()),
        ),
    }
}

/// The sample rate of a recording after more of it was decoded: it may differ from what the file
/// declares, but does not change after the first samples.
pub fn recording_rate(known_rate: u32, decoded_rate: u32, has_samples: bool) -> (rate: Result<
    u32,
    String,
>)
    ensures
        match rate {
            Ok(rate) => rate == decoded_rate && (decoded_rate == known_rate || !has_samples),
            Err(error) => decoded_rate != known_rate && has_samples && error@
                == "The media audio track changes sample rate part-way through."@,
        },
{
    if decoded_rate != known_rate && has_samples {
        return Err("The media audio track changes sample rate part-way through.".to_string());
    }
    Ok(decoded_rate)
}

} // verus!
