//! Change of offset: a track is shifted in time.

use crate::codec::number_model;
use crate::mkv::{Stream, Track};
use crate::paths::{ext_of, extension, file_in, is_plain, joined_is_plain, output_file, plain};
use crate::text::join2;
use crate::value::Decimal;
use json::number::Number;
use vstd::prelude::*;

verus! {

/// The path of a track has no extension to carry over to the shifted copy,
/// or one that cannot be an extension again.
#[derive(Clone, Copy, Debug, PartialEq, Eq, Structural)]
pub struct NoExtension;

/// The model of a copy.
pub struct CopyView {
    pub from: Seq<char>,
    pub to: Seq<char>,
    pub result: Track,
}

/// The work of shifting a track: the file at `from` is copied to `to`, and
/// the track then is `result`.
#[derive(Debug, PartialEq)]
pub struct CopyJob {
    pub from: String,
    pub to: String,
    pub result: Stream,
}

impl View for CopyJob {
    type V = CopyView;

    open spec fn view(&self) -> CopyView {
        CopyView { from: self.from@, to: self.to@, result: self.result@ }
    }
}

/// The work of shifting a track into the directory `output`: a copy of its
/// file under the same extension, with `shifted` as its new offset.
pub open spec fn offset_job(track: Track, output: Seq<char>, shifted: Decimal) -> Result<
    CopyView,
    NoExtension,
> {
    match ext_of(track.path) {
        Some(ext) if plain(ext) => {
            let to = file_in(output, track.id, "offset."@ + ext);
            Ok(CopyView { from: track.path, to, result: Track { path: to, offset: shifted, ..track } })
        },
        _ => Err(NoExtension),
    }
}

/// Plans the shift of a track. `shifted` is the offset of the track after
/// the shift, which the caller works out in floating point.
pub fn change(stream: &Stream, output: &str, shifted: Number) -> (r: Result<CopyJob, NoExtension>)
    ensures
        r matches Ok(job) ==> offset_job(stream@, output@, number_model(shifted)) == Ok::<
            CopyView,
            NoExtension,
        >(job@),
        r matches Err(e) ==> offset_job(stream@, output@, number_model(shifted)) == Err::<
            CopyView,
            NoExtension,
        >(e),
{
    let ext = match extension(stream.path.as_str()) {
        Some(ext) => ext,
        None => {
            return Err(NoExtension);
        },
    };
    if !is_plain(ext.as_str()) {
        return Err(NoExtension);
    }
    let name = join2("offset.", ext.as_str());
    proof {
        reveal_strlit("offset.");
        reveal_with_fuel(crate::paths::plain_from, 12);
        joined_is_plain("offset."@, ext@, 0);
    }
    let to = output_file(output, stream.id.as_str(), name.as_str());
    let mut new = stream.copy();
    new.path = to.clone();
    new.offset = shifted;
    Ok(CopyJob { from: stream.path.clone(), to, result: new })
}

} // verus!
