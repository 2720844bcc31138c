//! The stage sequence of one track: which transformation runs next, under
//! which stage number.

use crate::glob::{accepts, matches_glob};
use crate::mkv::{commit_doc, commit_of, Stream, Track};
use crate::paths::{file_in, join, joined, output_file};
use crate::text::{decimal, join2, join3, same, unsigned_text};
use crate::utils::{framerate, framerate_of};
use crate::value::{members_view, object_view, without, Doc, Members, Value};
use vstd::prelude::*;

verus! {

/// A frame rate as numerator and denominator.
pub type Rate = (u32, u32);

/// The model of a transformation.
pub enum ActionView {
    Extract,
    Normalize,
    Offset { seconds: Seq<char> },
    Encode { options: Doc },
    Vapoursynth { filter: Seq<char> },
    Avisynth { filter: Seq<char> },
    SpeedVideo { framerate: Rate },
    SpeedAudio { input: Rate, output: Rate },
    Tempo { input: Rate, output: Rate },
    Pitch { input: Rate, output: Rate },
    SpeedSubtitles { input: Rate, output: Rate },
    SpeedChapters { input: Rate, output: Rate },
}

/// One transformation of a track, with its parameters.
#[derive(Debug)]
pub enum Action {
    /// Take the track out of its container.
    Extract,
    /// Bring Dolby audio to a neutral level before it is encoded again.
    Normalize,
    /// Shift the track by `seconds`, a decimal text.
    Offset { seconds: String },
    /// Encode with the given options.
    Encode { options: Value },
    /// Run the VapourSynth script at `filter`.
    Vapoursynth { filter: String },
    /// Run the AviSynth script at `filter`.
    Avisynth { filter: String },
    /// Stamp a new frame rate on a video track.
    SpeedVideo { framerate: Rate },
    /// Resample an audio track from one frame rate to another.
    SpeedAudio { input: Rate, output: Rate },
    /// Stretch an audio track in time, keeping its pitch.
    Tempo { input: Rate, output: Rate },
    /// Shift the pitch of an audio track, keeping its length.
    Pitch { input: Rate, output: Rate },
    /// Rescale the timestamps of a subtitle track.
    SpeedSubtitles { input: Rate, output: Rate },
    /// Rescale the timestamps of a chapters track.
    SpeedChapters { input: Rate, output: Rate },
}

impl View for Action {
    type V = ActionView;

    open spec fn view(&self) -> ActionView {
        match self {
            Action::Extract => ActionView::Extract,
            Action::Normalize => ActionView::Normalize,
            Action::Offset { seconds } => ActionView::Offset { seconds: seconds@ },
            Action::Encode { options } => ActionView::Encode { options: options@ },
            Action::Vapoursynth { filter } => ActionView::Vapoursynth { filter: filter@ },
            Action::Avisynth { filter } => ActionView::Avisynth { filter: filter@ },
            Action::SpeedVideo { framerate } => ActionView::SpeedVideo { framerate: *framerate },
            Action::SpeedAudio { input, output } => ActionView::SpeedAudio {
                input: *input,
                output: *output,
            },
            Action::Tempo { input, output } => ActionView::Tempo { input: *input, output: *output },
            Action::Pitch { input, output } => ActionView::Pitch { input: *input, output: *output },
            Action::SpeedSubtitles { input, output } => ActionView::SpeedSubtitles {
                input: *input,
                output: *output,
            },
            Action::SpeedChapters { input, output } => ActionView::SpeedChapters {
                input: *input,
                output: *output,
            },
        }
    }
}

/// Why the stage sequence of a track cannot go on.
#[derive(Clone, Copy, Debug, PartialEq, Eq, Structural)]
pub enum PlanError {
    /// A `speed` directive for video names no `framerate` text.
    MissingFramerate,
    /// A retiming directive names no `input` text.
    MissingInput,
    /// A retiming directive names no `output` text.
    MissingOutput,
    /// The stage numbers are used up.
    TooManyStages,
}

/// How many checks the second pass makes for each directive.
pub const SLOTS: u8 = 10;

/// A place in the stage sequence of a track.
///
/// The sequence has three passes: the extraction, then one check of every
/// directive for normalization, then `SLOTS` checks of every directive for the
/// transformations proper. `stage` is the number of the last stage that ran.
#[derive(Clone, Copy, Debug, PartialEq, Eq, Structural)]
pub struct Cursor {
    pub pass: u8,
    pub filter: usize,
    pub slot: u8,
    pub stage: u32,
}

impl Cursor {
    /// The place before the first stage.
    pub open spec fn initial() -> Cursor {
        Cursor { pass: 0, filter: 0, slot: 0, stage: 0 }
    }

    /// The place before the first stage.
    pub fn start() -> (r: Cursor)
        ensures
            r == Cursor::initial(),
    {
        Cursor { pass: 0, filter: 0, slot: 0, stage: 0 }
    }

    /// Whether nothing is left to check among `count` directives.
    pub open spec fn finished(self, count: int) -> bool {
        self.pass >= 2 && self.filter >= count
    }

    /// The place after this one, among `count` directives.
    pub open spec fn following(self, count: int) -> Cursor {
        if self.pass == 0 {
            Cursor { pass: 1, filter: 0, slot: 0, stage: self.stage }
        } else if self.pass == 1 {
            if self.filter + 1 < count {
                Cursor { pass: 1, filter: (self.filter + 1) as usize, slot: 0, stage: self.stage }
            } else {
                Cursor { pass: 2, filter: 0, slot: 0, stage: self.stage }
            }
        } else if self.slot + 1 < SLOTS {
            Cursor { pass: 2, filter: self.filter, slot: (self.slot + 1) as u8, stage: self.stage }
        } else {
            Cursor { pass: 2, filter: (self.filter + 1) as usize, slot: 0, stage: self.stage }
        }
    }

    /// This place with `stage` as the last stage that ran.
    pub open spec fn numbered(self, stage: u32) -> Cursor {
        Cursor { pass: self.pass, filter: self.filter, slot: self.slot, stage }
    }

    fn next(self, count: usize) -> (r: Cursor)
        requires
            !self.finished(count as int),
        ensures
            r == self.following(count as int),
    {
        if self.pass == 0 {
            Cursor { pass: 1, filter: 0, slot: 0, stage: self.stage }
        } else if self.pass == 1 {
            if self.filter < count && self.filter + 1 < count {
                Cursor { pass: 1, filter: self.filter + 1, slot: 0, stage: self.stage }
            } else {
                Cursor { pass: 2, filter: 0, slot: 0, stage: self.stage }
            }
        } else if self.slot < SLOTS - 1 {
            Cursor { pass: 2, filter: self.filter, slot: self.slot + 1, stage: self.stage }
        } else {
            Cursor { pass: 2, filter: self.filter + 1, slot: 0, stage: self.stage }
        }
    }
}

/// What the sequence does next.
#[derive(Debug)]
pub enum Step {
    /// Run `action` as stage `number`, then go on from `next`.
    Stage { number: u32, action: Action, next: Cursor },
    /// Every stage has run.
    Done,
    /// The sequence ends in an error.
    Failed(PlanError),
}

/// The model of a step.
pub enum StepView {
    Stage { number: u32, action: ActionView, next: Cursor },
    Done,
    Failed(PlanError),
}

impl View for Step {
    type V = StepView;

    open spec fn view(&self) -> StepView {
        match self {
            Step::Stage { number, action, next } => StepView::Stage {
                number: *number,
                action: action@,
                next: *next,
            },
            Step::Done => StepView::Done,
            Step::Failed(e) => StepView::Failed(*e),
        }
    }
}

/// The pattern that an `offset` directive's key stands for.
pub open spec fn offset_pattern(key: Seq<char>) -> Seq<char> {
    "*"@ + key + "*"@
}

/// The seconds of an `offset` directive for the working directory `working`:
/// the value of the first binding at or after `from` whose key, as a pattern,
/// matches the directory; `0.0` where that value is no text, or nothing matches.
pub open spec fn offset_seconds(entries: Members, working: Seq<char>, from: int) -> Seq<char>
    decreases entries.len() - from,
{
    if from < 0 || from >= entries.len() {
        "0.0"@
    } else if accepts(offset_pattern(entries[from].0), working) {
        match entries[from].1.as_text() {
            Some(s) => s,
            None => "0.0"@,
        }
    } else {
        offset_seconds(entries, working, from + 1)
    }
}

/// The frame rate under `key` in a directive; none where it is no text.
pub open spec fn rate_at(filter: Doc, key: Seq<char>) -> Option<Rate> {
    match filter.get(key).as_text() {
        Some(s) => Some(framerate_of(s)),
        None => None,
    }
}

/// What a directive with an `input` and an `output` rate asks for.
pub open spec fn retiming(
    filter: Doc,
    make: spec_fn(Rate, Rate) -> ActionView,
) -> Result<ActionView, PlanError> {
    match rate_at(filter, "input"@) {
        None => Err(PlanError::MissingInput),
        Some(input) => match rate_at(filter, "output"@) {
            None => Err(PlanError::MissingOutput),
            Some(output) => Ok(make(input, output)),
        },
    }
}

/// Whether a directive is of the kind `name`.
pub open spec fn is_kind(filter: Doc, name: Seq<char>) -> bool {
    filter.get("$type"@) == Doc::Text(name)
}

/// What the normalization pass does at a directive: Dolby audio that is
/// about to be encoded into another codec, and not just copied, is
/// normalized first.
pub open spec fn normalize_check(filter: Doc, current: Track) -> bool {
    &&& is_kind(filter, "encode"@)
    &&& current.codec == Some("ac3"@)
    &&& filter.get("codec"@) != Doc::Text("copy"@)
    &&& filter.get("codec"@) != Doc::Text("ac3"@)
}

/// What the check `slot` of the second pass does at a directive, for a track
/// that was `selected` when its sequence began and is `current` now, in the
/// working directory `working`: nothing, a transformation, or an error.
pub open spec fn slot_check(
    filter: Doc,
    slot: u8,
    selected: Track,
    current: Track,
    working: Seq<char>,
) -> Option<Result<ActionView, PlanError>> {
    if slot == 0 {
        if is_kind(filter, "offset"@) {
            Some(Ok(ActionView::Offset { seconds: offset_seconds(filter.entries(), working, 0) }))
        } else {
            None
        }
    } else if slot == 1 {
        if is_kind(filter, "encode"@) && selected.streamtype != "chapters"@ {
            Some(
                Ok(
                    ActionView::Encode {
                        options: Doc::Object(without(filter.entries(), "$type"@)),
                    },
                ),
            )
        } else {
            None
        }
    } else if slot == 2 {
        if current.streamtype == "video"@ && is_kind(filter, "vapoursynth"@) {
            Some(Ok(ActionView::Vapoursynth { filter: crate::codec::display(filter.get("filter"@)) }))
        } else {
            None
        }
    } else if slot == 3 {
        if current.streamtype == "video"@ && is_kind(filter, "avisynth"@) {
            Some(Ok(ActionView::Avisynth { filter: crate::codec::display(filter.get("filter"@)) }))
        } else {
            None
        }
    } else if slot == 4 {
        if current.streamtype == "video"@ && is_kind(filter, "speed"@) {
            Some(
                match rate_at(filter, "framerate"@) {
                    Some(rate) => Ok(ActionView::SpeedVideo { framerate: rate }),
                    None => Err(PlanError::MissingFramerate),
                },
            )
        } else {
            None
        }
    } else if slot == 5 {
        if current.streamtype == "audio"@ && is_kind(filter, "speed"@) {
            Some(
                retiming(
                    filter,
                    |input: Rate, output: Rate| ActionView::SpeedAudio { input, output },
                ),
            )
        } else {
            None
        }
    } else if slot == 6 {
        if current.streamtype == "audio"@ && is_kind(filter, "tempo"@) {
            Some(retiming(filter, |input: Rate, output: Rate| ActionView::Tempo { input, output }))
        } else {
            None
        }
    } else if slot == 7 {
        if current.streamtype == "audio"@ && is_kind(filter, "pitch"@) {
            Some(retiming(filter, |input: Rate, output: Rate| ActionView::Pitch { input, output }))
        } else {
            None
        }
    } else if slot == 8 {
        if current.streamtype == "subtitle"@ && is_kind(filter, "speed"@) {
            Some(
                retiming(
                    filter,
                    |input: Rate, output: Rate| ActionView::SpeedSubtitles { input, output },
                ),
            )
        } else {
            None
        }
    } else if slot == 9 {
        if current.streamtype == "chapters"@ && is_kind(filter, "speed"@) {
            Some(
                retiming(
                    filter,
                    |input: Rate, output: Rate| ActionView::SpeedChapters { input, output },
                ),
            )
        } else {
            None
        }
    } else {
        None
    }
}

/// What the place `cursor` does: nothing, a transformation, or an error.
pub open spec fn check_at(
    filters: Seq<Doc>,
    selected: Track,
    current: Track,
    working: Seq<char>,
    cursor: Cursor,
) -> Option<Result<ActionView, PlanError>> {
    if cursor.pass == 0 {
        Some(Ok(ActionView::Extract))
    } else if cursor.filter >= filters.len() {
        None
    } else if cursor.pass == 1 {
        if normalize_check(filters[cursor.filter as int], current) {
            Some(Ok(ActionView::Normalize))
        } else {
            None
        }
    } else {
        slot_check(filters[cursor.filter as int], cursor.slot, selected, current, working)
    }
}

/// The next step of the sequence from the place `cursor`: the first place
/// from there on that does something decides. A transformation takes the
/// stage number after the last one used and leaves the place after its own.
pub open spec fn plan(
    filters: Seq<Doc>,
    selected: Track,
    current: Track,
    working: Seq<char>,
    cursor: Cursor,
) -> StepView
    decreases
        (if cursor.pass < 2 {
            2 - cursor.pass
        } else {
            0
        }),
        filters.len() - cursor.filter,
        SLOTS - cursor.slot,
    when filters.len() <= usize::MAX
{
    if cursor.finished(filters.len() as int) {
        StepView::Done
    } else {
        match check_at(filters, selected, current, working, cursor) {
            Some(Ok(action)) => if cursor.stage == u32::MAX {
                StepView::Failed(PlanError::TooManyStages)
            } else {
                StepView::Stage {
                    number: (cursor.stage + 1) as u32,
                    action,
                    next: cursor.following(filters.len() as int).numbered(
                        (cursor.stage + 1) as u32,
                    ),
                }
            },
            Some(Err(e)) => StepView::Failed(e),
            None => plan(
                filters,
                selected,
                current,
                working,
                cursor.following(filters.len() as int),
            ),
        }
    }
}

/// Whether a directive is of the kind `name`.
pub fn has_kind(filter: &Value, name: &str) -> (r: bool)
    ensures
        r == is_kind(filter@, name@),
{
    match filter.get("$type") {
        Some(kind) => kind.is_text(name),
        None => false,
    }
}

/// The seconds of an `offset` directive for the working directory `working`.
pub fn offset_text(filter: &Value, working: &str) -> (r: String)
    ensures
        r@ == offset_seconds(filter@.entries(), working@, 0),
{
    let entries = filter.entries();
    let mut i: usize = 0;
    while i < entries.len()
        invariant
            i <= entries.len(),
            members_view(entries@) == filter@.entries(),
            offset_seconds(filter@.entries(), working@, 0) == offset_seconds(
                filter@.entries(),
                working@,
                i as int,
            ),
        decreases entries.len() - i,
    {
        let pattern = join3("*", entries[i].0.as_str(), "*");
        assert(filter@.entries()[i as int] == (entries@[i as int].0@, entries@[i as int].1@));
        if matches_glob(pattern.as_str(), working) {
            return match entries[i].1.as_str() {
                Some(s) => String::from_str(s),
                None => String::from_str("0.0"),
            };
        }
        i += 1;
    }
    String::from_str("0.0")
}

/// The frame rate under `key` in a directive; none where it is no text.
pub fn rate_of(filter: &Value, key: &str) -> (r: Option<Rate>)
    ensures
        r == rate_at(filter@, key@),
{
    match filter.get(key) {
        Some(value) => match value.as_str() {
            Some(s) => Some(framerate(s)),
            None => None,
        },
        None => None,
    }
}

/// The `input` and `output` rates of a retiming directive.
pub fn rates_of(filter: &Value) -> (r: Result<(Rate, Rate), PlanError>)
    ensures
        r == (match rate_at(filter@, "input"@) {
            None => Err::<(Rate, Rate), PlanError>(PlanError::MissingInput),
            Some(input) => match rate_at(filter@, "output"@) {
                None => Err(PlanError::MissingOutput),
                Some(output) => Ok((input, output)),
            },
        }),
{
    match rate_of(filter, "input") {
        None => Err(PlanError::MissingInput),
        Some(input) => match rate_of(filter, "output") {
            None => Err(PlanError::MissingOutput),
            Some(output) => Ok((input, output)),
        },
    }
}

/// The text under `filter` in a directive.
fn script_of(filter: &Value) -> (r: String)
    ensures
        r@ == crate::codec::display(filter@.get("filter"@)),
{
    match filter.get("filter") {
        Some(path) => crate::codec::show(path),
        None => crate::codec::show(&Value::Null),
    }
}

/// The options of an `encode` directive: the directive without its kind.
fn options_of(filter: &Value) -> (r: Value)
    ensures
        r@ == Doc::Object(without(filter@.entries(), "$type"@)),
{
    match filter {
        Value::Object(members) => {
            let rest = crate::value::drop_member(members, "$type");
            proof {
                object_view(*members);
                object_view(rest);
            }
            Value::Object(rest)
        },
        _ => {
            let rest: Vec<(String, Value)> = Vec::new();
            proof {
                object_view(rest);
                assert(members_view(rest@) =~= without(filter@.entries(), "$type"@));
            }
            Value::Object(rest)
        },
    }
}

/// What the check `slot` of the second pass does at a directive.
pub fn check_slot(
    filter: &Value,
    slot: u8,
    selected: &Stream,
    current: &Stream,
    working: &str,
) -> (r: Option<Result<Action, PlanError>>)
    ensures
        r is Some == slot_check(filter@, slot, selected@, current@, working@) is Some,
        r matches Some(Ok(action)) ==> slot_check(filter@, slot, selected@, current@, working@)
            == Some(Ok::<ActionView, PlanError>(action@)),
        r matches Some(Err(e)) ==> slot_check(filter@, slot, selected@, current@, working@)
            == Some(Err::<ActionView, PlanError>(e)),
{
    let kind = current.streamtype.as_str();
    if slot == 0 {
        if has_kind(filter, "offset") {
            Some(Ok(Action::Offset { seconds: offset_text(filter, working) }))
        } else {
            None
        }
    } else if slot == 1 {
        if has_kind(filter, "encode") && !same(selected.streamtype.as_str(), "chapters") {
            Some(Ok(Action::Encode { options: options_of(filter) }))
        } else {
            None
        }
    } else if slot == 2 {
        if same(kind, "video") && has_kind(filter, "vapoursynth") {
            Some(Ok(Action::Vapoursynth { filter: script_of(filter) }))
        } else {
            None
        }
    } else if slot == 3 {
        if same(kind, "video") && has_kind(filter, "avisynth") {
            Some(Ok(Action::Avisynth { filter: script_of(filter) }))
        } else {
            None
        }
    } else if slot == 4 {
        if same(kind, "video") && has_kind(filter, "speed") {
            match rate_of(filter, "framerate") {
                Some(rate) => Some(Ok(Action::SpeedVideo { framerate: rate })),
                None => Some(Err(PlanError::MissingFramerate)),
            }
        } else {
            None
        }
    } else if slot == 5 {
        if same(kind, "audio") && has_kind(filter, "speed") {
            match rates_of(filter) {
                Ok((input, output)) => Some(Ok(Action::SpeedAudio { input, output })),
                Err(e) => Some(Err(e)),
            }
        } else {
            None
        }
    } else if slot == 6 {
        if same(kind, "audio") && has_kind(filter, "tempo") {
            match rates_of(filter) {
                Ok((input, output)) => Some(Ok(Action::Tempo { input, output })),
                Err(e) => Some(Err(e)),
            }
        } else {
            None
        }
    } else if slot == 7 {
        if same(kind, "audio") && has_kind(filter, "pitch") {
            match rates_of(filter) {
                Ok((input, output)) => Some(Ok(Action::Pitch { input, output })),
                Err(e) => Some(Err(e)),
            }
        } else {
            None
        }
    } else if slot == 8 {
        if same(kind, "subtitle") && has_kind(filter, "speed") {
            match rates_of(filter) {
                Ok((input, output)) => Some(Ok(Action::SpeedSubtitles { input, output })),
                Err(e) => Some(Err(e)),
            }
        } else {
            None
        }
    } else if slot == 9 {
        if same(kind, "chapters") && has_kind(filter, "speed") {
            match rates_of(filter) {
                Ok((input, output)) => Some(Ok(Action::SpeedChapters { input, output })),
                Err(e) => Some(Err(e)),
            }
        } else {
            None
        }
    } else {
        None
    }
}

/// Whether the normalization pass acts at a directive.
pub fn check_normalize(filter: &Value, current: &Stream) -> (r: bool)
    ensures
        r == normalize_check(filter@, current@),
{
    if !has_kind(filter, "encode") {
        return false;
    }
    let dolby = match &current.codec {
        Some(codec) => same(codec.as_str(), "ac3"),
        None => false,
    };
    let stays = match filter.get("codec") {
        Some(codec) => codec.is_text("copy") || codec.is_text("ac3"),
        None => false,
    };
    dolby && !stays
}

/// The next step in the stage sequence of a track that is `current` now.
///
/// `cfg` is the option that selected the track, `selected` the track as it
/// was selected, `working` the directory the track is worked on in, and
/// `cursor` the place that the last step left.
pub fn step(cfg: &Value, selected: &Stream, current: &Stream, working: &str, cursor: Cursor) -> (r:
    Step)
    ensures
        r@ == plan(cfg@.get("filters"@).members(), selected@, current@, working@, cursor),
{
    let empty = Value::Null;
    let list = match cfg.get("filters") {
        Some(list) => list,
        None => &empty,
    };
    let filters = list.members();
    let ghost all = cfg@.get("filters"@).members();
    assert(all.len() == filters@.len()) by {
        assert(crate::value::items_view(filters@).len() == filters@.len());
    }
    let mut at = cursor;
    loop
        invariant
            all == cfg@.get("filters"@).members(),
            crate::value::items_view(filters@) == all,
            all.len() == filters@.len(),
            plan(all, selected@, current@, working@, cursor) == plan(
                all,
                selected@,
                current@,
                working@,
                at,
            ),
        decreases
            (if at.pass < 2 {
                2 - at.pass
            } else {
                0
            }),
            filters.len() - at.filter,
            SLOTS - at.slot,
    {
        if at.pass >= 2 && at.filter >= filters.len() {
            return Step::Done;
        }
        let found = if at.pass == 0 {
            Some(Ok(Action::Extract))
        } else if at.filter >= filters.len() {
            None
        } else if at.pass == 1 {
            if check_normalize(&filters[at.filter], current) {
                Some(Ok(Action::Normalize))
            } else {
                None
            }
        } else {
            check_slot(&filters[at.filter], at.slot, selected, current, working)
        };
        assert(at.filter < filters.len() ==> all[at.filter as int] == filters@[at.filter as int]@);
        match found {
            Some(Ok(action)) => {
                if at.stage == u32::MAX {
                    return Step::Failed(PlanError::TooManyStages);
                }
                let number = at.stage + 1;
                let after = at.next(filters.len());
                return Step::Stage {
                    number,
                    action,
                    next: Cursor {
                        pass: after.pass,
                        filter: after.filter,
                        slot: after.slot,
                        stage: number,
                    },
                };
            },
            Some(Err(e)) => {
                return Step::Failed(e);
            },
            None => {
                at = at.next(filters.len());
            },
        }
    }
}

/// A step that runs a stage gives it the number after the last one used, and
/// leaves a place that remembers that number.
pub proof fn plan_numbers(
    filters: Seq<Doc>,
    selected: Track,
    current: Track,
    working: Seq<char>,
    cursor: Cursor,
)
    requires
        filters.len() <= usize::MAX,
    ensures
        plan(filters, selected, current, working, cursor) matches StepView::Stage {
            number,
            next,
            ..
        } ==> number == cursor.stage + 1 && next.stage == number,
    decreases
        (if cursor.pass < 2 {
            2 - cursor.pass
        } else {
            0
        }),
        filters.len() - cursor.filter,
        SLOTS - cursor.slot,
{
    if !cursor.finished(filters.len() as int) && check_at(
        filters,
        selected,
        current,
        working,
        cursor,
    ) is None {
        plan_numbers(filters, selected, current, working, cursor.following(filters.len() as int));
    }
}

/// The track that stage `k + 1` of a sequence works on: the selected for the
/// first stage, after that what the stage before handed back.
pub open spec fn track_before(selected: Track, results: Seq<Track>, k: int) -> Track {
    if k <= 0 {
        selected
    } else {
        results[k - 1]
    }
}

/// The place that a sequence has reached after `k` stages, where stage `i + 1`
/// handed back `results[i]`; none where the sequence ended before that.
pub open spec fn place_after(
    filters: Seq<Doc>,
    selected: Track,
    working: Seq<char>,
    results: Seq<Track>,
    k: nat,
) -> Option<Cursor>
    decreases k,
{
    if k == 0 {
        Some(Cursor::initial())
    } else {
        match place_after(filters, selected, working, results, (k - 1) as nat) {
            None => None,
            Some(before) => match plan(
                filters,
                selected,
                track_before(selected, results, k - 1),
                working,
                before,
            ) {
                StepView::Stage { next, .. } => Some(next),
                _ => None,
            },
        }
    }
}

/// Stage numbers count up from one without gaps: whatever the stages hand
/// back, the place reached after `k` stages has `k` as its last number, so the
/// stage that follows, if there is one, is stage `k + 1`.
pub proof fn stage_numbers_count_up(
    filters: Seq<Doc>,
    selected: Track,
    working: Seq<char>,
    results: Seq<Track>,
    k: nat,
)
    requires
        filters.len() <= usize::MAX,
    ensures
        place_after(filters, selected, working, results, k) matches Some(place) ==> {
            &&& place.stage == k
            &&& plan(
                filters,
                selected,
                track_before(selected, results, k as int),
                working,
                place,
            ) matches StepView::Stage { number, .. } ==> number == k + 1
        },
    decreases k,
{
    if k > 0 {
        stage_numbers_count_up(filters, selected, working, results, (k - 1) as nat);
        match place_after(filters, selected, working, results, (k - 1) as nat) {
            Some(before) => {
                plan_numbers(
                    filters,
                    selected,
                    track_before(selected, results, k - 1),
                    working,
                    before,
                );
            },
            None => {},
        }
    }
    match place_after(filters, selected, working, results, k) {
        Some(place) => {
            plan_numbers(filters, selected, track_before(selected, results, k as int), working, place);
        },
        None => {},
    }
}

/// Why a stage did not leave a track.
#[derive(Clone, Copy, Debug, PartialEq, Eq, Structural)]
pub enum StageError {
    /// The transformation failed.
    Execution,
    /// The commit of the stage could not be written, or what is there as its
    /// commit cannot be read as one.
    Commit,
    /// The file that the stage superseded could not be removed.
    Cleanup,
}

/// Where a stage stands.
#[derive(Clone, Copy, Debug, PartialEq, Eq, Structural)]
pub enum StageState {
    /// Nothing is known of a commit yet.
    Pending,
    /// There is no commit, and the stage is at work.
    Running,
    /// The stage has a commit.
    Committed,
    /// The stage has failed.
    Failed,
}

/// What was found where the commit of a stage belongs.
#[derive(Debug, PartialEq, Eq)]
pub enum Commit {
    /// No file.
    Absent,
    /// A file that cannot be read.
    Unreadable,
    /// A file with this text.
    Found(String),
}

/// How far a stage has come.
#[derive(Debug, PartialEq)]
pub enum Progress {
    /// Nothing has been done.
    Entered,
    /// The directory of the stage is there, and its commit was looked for.
    Looked(Commit),
    /// The transformation ran and left this track.
    Ran(Stream),
    /// The commit of this track was written.
    Saved(Stream),
    /// What the stage superseded was removed.
    Cleaned(Stream),
    /// The transformation failed.
    RunFailed,
    /// The commit could not be written.
    SaveFailed,
    /// What the stage superseded could not be removed.
    CleanupFailed,
}

/// What to do next for a stage.
#[derive(Debug, PartialEq)]
pub enum Order {
    /// Make the directory `dir` and look for the file `commit`.
    Look { dir: String, commit: String },
    /// Run the transformation of the stage on `track`, with `dir` as its
    /// directory.
    Invoke { dir: String, track: Stream },
    /// Write `text` to the file `commit`.
    Save { commit: String, text: String },
    /// Remove the file `path`, if it is there.
    Cleanup { path: String },
    /// The stage is committed and left this track.
    Done(Stream),
    /// The stage has failed.
    Fail(StageError),
}

/// The model of what was found where a commit belongs.
pub enum CommitView {
    Absent,
    Unreadable,
    Found(Seq<char>),
}

/// The model of the progress of a stage.
pub enum ProgressView {
    Entered,
    Looked(CommitView),
    Ran(Track),
    Saved(Track),
    Cleaned(Track),
    RunFailed,
    SaveFailed,
    CleanupFailed,
}

/// The model of an order.
pub enum OrderView {
    Look { dir: Seq<char>, commit: Seq<char> },
    Invoke { dir: Seq<char>, track: Track },
    Save { commit: Seq<char>, text: Seq<char> },
    Cleanup { path: Seq<char> },
    Done(Track),
    Fail(StageError),
}

impl OrderView {
    /// Where a stage stands once this order is given: pending while its
    /// commit is looked for, running while it is at work, and then committed
    /// or failed for good.
    pub open spec fn state(self) -> StageState {
        match self {
            OrderView::Look { .. } => StageState::Pending,
            OrderView::Invoke { .. } => StageState::Running,
            OrderView::Save { .. } => StageState::Running,
            OrderView::Cleanup { .. } => StageState::Running,
            OrderView::Done(_) => StageState::Committed,
            OrderView::Fail(_) => StageState::Failed,
        }
    }
}

impl View for Commit {
    type V = CommitView;

    open spec fn view(&self) -> CommitView {
        match self {
            Commit::Absent => CommitView::Absent,
            Commit::Unreadable => CommitView::Unreadable,
            Commit::Found(text) => CommitView::Found(text@),
        }
    }
}

impl View for Progress {
    type V = ProgressView;

    open spec fn view(&self) -> ProgressView {
        match self {
            Progress::Entered => ProgressView::Entered,
            Progress::Looked(commit) => ProgressView::Looked(commit@),
            Progress::Ran(stream) => ProgressView::Ran(stream@),
            Progress::Saved(stream) => ProgressView::Saved(stream@),
            Progress::Cleaned(stream) => ProgressView::Cleaned(stream@),
            Progress::RunFailed => ProgressView::RunFailed,
            Progress::SaveFailed => ProgressView::SaveFailed,
            Progress::CleanupFailed => ProgressView::CleanupFailed,
        }
    }
}

impl View for Order {
    type V = OrderView;

    open spec fn view(&self) -> OrderView {
        match self {
            Order::Look { dir, commit } => OrderView::Look { dir: dir@, commit: commit@ },
            Order::Invoke { dir, track } => OrderView::Invoke { dir: dir@, track: track@ },
            Order::Save { commit, text } => OrderView::Save { commit: commit@, text: text@ },
            Order::Cleanup { path } => OrderView::Cleanup { path: path@ },
            Order::Done(stream) => OrderView::Done(stream@),
            Order::Fail(e) => OrderView::Fail(*e),
        }
    }
}

/// The directory of stage `stage` under the working directory of a track.
pub open spec fn stage_dir(working: Seq<char>, stage: u32) -> Seq<char> {
    joined(working, "Stage"@ + decimal(stage as nat))
}

/// The commit file of a stage, in the directory of the stage.
pub open spec fn commit_path(dir: Seq<char>) -> Seq<char> {
    file_in(dir, "commit"@, "json"@)
}

/// What to do next for stage `stage` of a track, which came into the stage as
/// `input`, at the progress `progress`.
///
/// A stage begins by looking for its commit. A commit that is there is read
/// and decides the stage; only without one is the transformation run, on the
/// track that came into the stage. The track it leaves is committed; then,
/// unless this is the first stage, the file that the track came in as is
/// removed.
pub open spec fn stage_order(
    input: Track,
    working: Seq<char>,
    stage: u32,
    progress: ProgressView,
) -> OrderView {
    let dir = stage_dir(working, stage);
    match progress {
        ProgressView::Entered => OrderView::Look { dir, commit: commit_path(dir) },
        ProgressView::Looked(CommitView::Absent) => OrderView::Invoke { dir, track: input },
        ProgressView::Looked(CommitView::Unreadable) => OrderView::Fail(StageError::Commit),
        ProgressView::Looked(CommitView::Found(text)) => match commit_of(text) {
            Ok(track) => OrderView::Done(track),
            Err(_) => OrderView::Fail(StageError::Commit),
        },
        ProgressView::Ran(new) => OrderView::Save {
            commit: commit_path(dir),
            text: crate::codec::pretty_text(commit_doc(new), 4),
        },
        ProgressView::Saved(new) => if stage > 1 {
            OrderView::Cleanup { path: input.path }
        } else {
            OrderView::Done(new)
        },
        ProgressView::Cleaned(new) => OrderView::Done(new),
        ProgressView::RunFailed => OrderView::Fail(StageError::Execution),
        ProgressView::SaveFailed => OrderView::Fail(StageError::Commit),
        ProgressView::CleanupFailed => OrderView::Fail(StageError::Cleanup),
    }
}

/// Decides what to do next for one stage of a track.
///
/// The caller carries out each order and comes back with the progress made:
/// after `Look` with what it found, after `Invoke` with the track that the
/// transformation left, after `Save` and `Cleanup` with that same track; or,
/// where it could not carry out the order, with that failure. A stage ends
/// with `Done` or `Fail`.
pub fn run_stage(stream: &Stream, working: &str, stage: u32, progress: &Progress) -> (r: Order)
    ensures
        r@ == stage_order(stream@, working@, stage, progress@),
{
    let name = join2("Stage", unsigned_text(stage as u64).as_str());
    let dir = join(working, name.as_str());
    match progress {
        Progress::Entered => {
            proof {
                reveal_strlit("json");
                reveal_with_fuel(crate::paths::plain_from, 12);
            }
            let commit = output_file(dir.as_str(), "commit", "json");
            Order::Look { dir, commit }
        },
        Progress::Looked(Commit::Absent) => Order::Invoke { dir, track: stream.copy() },
        Progress::Looked(Commit::Unreadable) => Order::Fail(StageError::Commit),
        Progress::Looked(Commit::Found(text)) => match Stream::load(text.as_str()) {
            Ok(stream) => Order::Done(stream),
            Err(_) => Order::Fail(StageError::Commit),
        },
        Progress::Ran(new) => {
            proof {
                reveal_strlit("json");
                reveal_with_fuel(crate::paths::plain_from, 12);
            }
            let commit = output_file(dir.as_str(), "commit", "json");
            Order::Save { commit, text: new.save() }
        },
        Progress::Saved(new) => {
            if stage > 1 {
                Order::Cleanup { path: stream.path.clone() }
            } else {
                Order::Done(new.copy())
            }
        },
        Progress::Cleaned(new) => Order::Done(new.copy()),
        Progress::RunFailed => Order::Fail(StageError::Execution),
        Progress::SaveFailed => Order::Fail(StageError::Commit),
        Progress::CleanupFailed => Order::Fail(StageError::Cleanup),
    }
}

impl Order {
    /// Where a stage stands once this order is given.
    pub fn state(&self) -> (r: StageState)
        ensures
            r == self@.state(),
    {
        match self {
            Order::Look { .. } => StageState::Pending,
            Order::Invoke { .. } => StageState::Running,
            Order::Save { .. } => StageState::Running,
            Order::Cleanup { .. } => StageState::Running,
            Order::Done(_) => StageState::Committed,
            Order::Fail(_) => StageState::Failed,
        }
    }
}

/// A stage that finds its commit does not run again: whatever the commit
/// holds, the stage ends there, with the track of the commit or in failure,
/// and orders no transformation, no writing and no removal.
pub proof fn committed_stage_is_not_run(input: Track, working: Seq<char>, stage: u32, text: Seq<char>)
    ensures
        stage_order(input, working, stage, ProgressView::Looked(CommitView::Found(text)))
            == (match commit_of(text) {
            Ok(track) => OrderView::Done(track),
            Err(_) => OrderView::Fail(StageError::Commit),
        }),
{
}

/// How the stage before ended.
#[derive(Debug, PartialEq)]
pub enum Last {
    /// No stage has run yet.
    Nothing,
    /// The stage left this track.
    Left(Stream),
    /// The stage failed.
    Failed(StageError),
}

/// The model of how the stage before ended.
pub enum LastView {
    Nothing,
    Left(Track),
    Failed(StageError),
}

impl View for Last {
    type V = LastView;

    open spec fn view(&self) -> LastView {
        match self {
            Last::Nothing => LastView::Nothing,
            Last::Left(stream) => LastView::Left(stream@),
            Last::Failed(e) => LastView::Failed(*e),
        }
    }
}

/// Why the stage sequence of a track ended without its last stage.
#[derive(Clone, Copy, Debug, PartialEq, Eq, Structural)]
pub enum RunError {
    /// The sequence cannot go on.
    Plan(PlanError),
    /// A stage failed.
    Stage(StageError),
}

/// What to do next for a track.
#[derive(Debug)]
pub enum Turn {
    /// Run `action` on `input` as stage `number`, then come back with how it
    /// ended and with `next`.
    Stage { number: u32, action: Action, input: Stream, next: Cursor },
    /// Every stage has run, and the track is this.
    Done(Stream),
    /// The sequence has ended in an error.
    Failed(RunError),
}

/// The model of a turn.
pub enum TurnView {
    Stage { number: u32, action: ActionView, input: Track, next: Cursor },
    Done(Track),
    Failed(RunError),
}

impl View for Turn {
    type V = TurnView;

    open spec fn view(&self) -> TurnView {
        match self {
            Turn::Stage { number, action, input, next } => TurnView::Stage {
                number: *number,
                action: action@,
                input: input@,
                next: *next,
            },
            Turn::Done(stream) => TurnView::Done(stream@),
            Turn::Failed(e) => TurnView::Failed(*e),
        }
    }
}

/// The track that the next stage works on: the track as it was selected
/// before the first stage, after that what the stage before left.
pub open spec fn track_after(selected: Track, last: LastView) -> Track {
    match last {
        LastView::Left(track) => track,
        _ => selected,
    }
}

/// What to do next for a track, where `last` is how the stage before ended.
///
/// After a failed stage nothing follows: the sequence has failed. Otherwise
/// the next stage, if there is one, is given the track that the stage before
/// left, and the sequence ends with the track that its last stage left.
pub open spec fn turn(
    filters: Seq<Doc>,
    selected: Track,
    working: Seq<char>,
    cursor: Cursor,
    last: LastView,
) -> TurnView {
    match last {
        LastView::Failed(e) => TurnView::Failed(RunError::Stage(e)),
        _ => {
            let current = track_after(selected, last);
            match plan(filters, selected, current, working, cursor) {
                StepView::Stage { number, action, next } => TurnView::Stage {
                    number,
                    action,
                    input: current,
                    next,
                },
                StepView::Done => TurnView::Done(current),
                StepView::Failed(e) => TurnView::Failed(RunError::Plan(e)),
            }
        },
    }
}

/// Decides what to do next for a track.
///
/// `cfg` is the option that selected the track, `selected` the track as it
/// was selected, `working` the directory the track is worked on in, `cursor`
/// the place that the last turn left (the start, at first), and `last` how
/// the stage of the last turn ended (nothing, at first). The caller runs the
/// stage that a turn names and comes back with how it ended and with the
/// turn's `next`, until a turn is `Done` or `Failed`.
pub fn run(cfg: &Value, selected: &Stream, working: &str, cursor: Cursor, last: &Last) -> (r: Turn)
    ensures
        r@ == turn(cfg@.get("filters"@).members(), selected@, working@, cursor, last@),
{
    let current = match last {
        Last::Failed(e) => {
            return Turn::Failed(RunError::Stage(*e));
        },
        Last::Left(stream) => stream,
        Last::Nothing => selected,
    };
    match step(cfg, selected, current, working, cursor) {
        Step::Stage { number, action, next } => Turn::Stage {
            number,
            action,
            input: current.copy(),
            next,
        },
        Step::Done => Turn::Done(current.copy()),
        Step::Failed(e) => Turn::Failed(RunError::Plan(e)),
    }
}

/// No stage follows a failed one, whatever the place in the sequence.
pub proof fn failed_stage_ends_the_sequence(
    filters: Seq<Doc>,
    selected: Track,
    working: Seq<char>,
    cursor: Cursor,
    e: StageError,
)
    ensures
        turn(filters, selected, working, cursor, LastView::Failed(e)) == TurnView::Failed(
            RunError::Stage(e),
        ),
{
}

/// A stage whose commit is missing runs its transformation on the track that
/// came into the stage, and on no other.
pub proof fn stage_runs_on_its_input(input: Track, working: Seq<char>, stage: u32)
    ensures
        stage_order(input, working, stage, ProgressView::Looked(CommitView::Absent))
            == (OrderView::Invoke { dir: stage_dir(working, stage), track: input }),
{
}

impl Order {
    /// How a stage ended, if this order ends it.
    pub open spec fn ending(order: OrderView) -> Option<LastView> {
        match order {
            OrderView::Done(track) => Some(LastView::Left(track)),
            OrderView::Fail(e) => Some(LastView::Failed(e)),
            _ => None,
        }
    }

    /// How a stage ended, if this order ends it: what to come back to `run`
    /// with.
    pub fn ended(self) -> (r: Option<Last>)
        ensures
            r is Some == Order::ending(self@) is Some,
            r matches Some(last) ==> Order::ending(self@) == Some(last@),
    {
        match self {
            Order::Done(stream) => Some(Last::Left(stream)),
            Order::Fail(e) => Some(Last::Failed(e)),
            _ => None,
        }
    }
}

/// What the stages of a track meet when they are carried out: what is found
/// where the commit of each stage belongs, what the transformation of each
/// stage makes of a track (nothing, where it fails), and whether the commit
/// of each stage can be written and what it superseded be removed.
pub struct World {
    pub commits: spec_fn(u32) -> CommitView,
    pub acts: spec_fn(u32, Track) -> Option<Track>,
    pub saves: spec_fn(u32) -> bool,
    pub cleans: spec_fn(u32) -> bool,
}

/// The progress that the caller comes back with after it has carried out an
/// order of stage `stage` in a world.
pub open spec fn answer(world: World, stage: u32, order: OrderView, progress: ProgressView) -> ProgressView {
    match order {
        OrderView::Look { .. } => ProgressView::Looked((world.commits)(stage)),
        OrderView::Invoke { track, .. } => match (world.acts)(stage, track) {
            Some(new) => ProgressView::Ran(new),
            None => ProgressView::RunFailed,
        },
        OrderView::Save { .. } => match progress {
            ProgressView::Ran(new) if (world.saves)(stage) => ProgressView::Saved(new),
            _ => ProgressView::SaveFailed,
        },
        OrderView::Cleanup { .. } => match progress {
            ProgressView::Saved(new) if (world.cleans)(stage) => ProgressView::Cleaned(new),
            _ => ProgressView::CleanupFailed,
        },
        _ => progress,
    }
}

/// How a stage went.
pub struct StageTrace {
    /// How it ended.
    pub last: LastView,
    /// Whether its transformation was run.
    pub invoked: bool,
    /// Whether a file was written or removed for it.
    pub wrote: bool,
}

/// How stage `stage` goes in a world from the progress `progress` on, where
/// the caller carries out at most `orders` orders.
pub open spec fn stage_trace(
    world: World,
    input: Track,
    working: Seq<char>,
    stage: u32,
    progress: ProgressView,
    orders: nat,
) -> StageTrace
    decreases orders,
{
    let order = stage_order(input, working, stage, progress);
    match Order::ending(order) {
        Some(last) => StageTrace { last, invoked: false, wrote: false },
        None => if orders == 0 {
            StageTrace { last: LastView::Failed(StageError::Execution), invoked: false, wrote: false }
        } else {
            let rest = stage_trace(
                world,
                input,
                working,
                stage,
                answer(world, stage, order, progress),
                (orders - 1) as nat,
            );
            StageTrace {
                last: rest.last,
                invoked: rest.invoked || order is Invoke,
                wrote: rest.wrote || order is Save || order is Cleanup,
            }
        },
    }
}

/// How stage `stage` goes in a world from its beginning. No stage takes more
/// than five orders.
pub open spec fn stage_end(world: World, input: Track, working: Seq<char>, stage: u32) -> StageTrace {
    stage_trace(world, input, working, stage, ProgressView::Entered, 5)
}

/// How the stage sequence of a track went.
pub struct RunTrace {
    /// The track it ended with, or why it ended without.
    pub result: Result<Track, RunError>,
    /// The numbers of the stages whose transformation was run, in order.
    pub invoked: Seq<u32>,
    /// The numbers of the stages for which a file was written or removed.
    pub wrote: Seq<u32>,
    /// The number of each stage that was entered and how it ended, in order.
    pub ends: Seq<(u32, LastView)>,
}

/// The directory of a track under the working directory of its item: the
/// directory named after the track.
pub open spec fn track_place(working: Seq<char>, selected: Track) -> Seq<char> {
    joined(working, selected.id)
}

/// The directory that holds the stages of a track, under the working
/// directory `working` of its item.
pub fn track_dir(working: &str, stream: &Stream) -> (r: String)
    ensures
        r@ == track_place(working@, stream@),
        r@ == joined(working@, stream@.id),
{
    join(working, stream.id.as_str())
}

/// How the stage sequence of a track goes in a world from the place `cursor`
/// on, where `last` is how the stage before ended and at most `turns` turns
/// are taken: each turn is asked with the working directory of the item, its
/// stage is carried out in the directory of the track as `stage_end` says,
/// and how it ended is what the next turn is asked with.
pub open spec fn run_trace(
    world: World,
    filters: Seq<Doc>,
    selected: Track,
    working: Seq<char>,
    cursor: Cursor,
    last: LastView,
    turns: nat,
) -> RunTrace
    decreases turns,
{
    match turn(filters, selected, working, cursor, last) {
        TurnView::Done(track) => RunTrace {
            result: Ok(track),
            invoked: Seq::empty(),
            wrote: Seq::empty(),
            ends: Seq::empty(),
        },
        TurnView::Failed(e) => RunTrace {
            result: Err(e),
            invoked: Seq::empty(),
            wrote: Seq::empty(),
            ends: Seq::empty(),
        },
        TurnView::Stage { number, input, next, .. } => if turns == 0 {
            RunTrace {
                result: Err(RunError::Plan(PlanError::TooManyStages)),
                invoked: Seq::empty(),
                wrote: Seq::empty(),
                ends: Seq::empty(),
            }
        } else {
            let stage = stage_end(world, input, track_place(working, selected), number);
            let rest = run_trace(
                world,
                filters,
                selected,
                working,
                next,
                stage.last,
                (turns - 1) as nat,
            );
            RunTrace {
                result: rest.result,
                invoked: (if stage.invoked {
                    seq![number]
                } else {
                    Seq::empty()
                }) + rest.invoked,
                wrote: (if stage.wrote {
                    seq![number]
                } else {
                    Seq::empty()
                }) + rest.wrote,
                ends: seq![(number, stage.last)] + rest.ends,
            }
        },
    }
}

/// A stage that finds something where its commit belongs runs no
/// transformation and writes and removes nothing.
pub proof fn committed_stage_does_nothing(world: World, input: Track, working: Seq<char>, stage: u32)
    requires
        !((world.commits)(stage) is Absent),
    ensures
        !stage_end(world, input, working, stage).invoked,
        !stage_end(world, input, working, stage).wrote,
{
    reveal_with_fuel(stage_trace, 3);
}

/// A stage whose transformation fails ends in failure, and nothing is
/// written or removed for it.
pub proof fn failed_action_fails_the_stage(world: World, input: Track, working: Seq<char>, stage: u32)
    requires
        (world.commits)(stage) is Absent,
        (world.acts)(stage, input) is None,
    ensures
        stage_end(world, input, working, stage).last == LastView::Failed(StageError::Execution),
        !stage_end(world, input, working, stage).wrote,
{
    reveal_with_fuel(stage_trace, 4);
}

/// Once a stage has failed, the sequence ends with that failure, and no
/// further stage is run or written.
pub proof fn failure_ends_the_run(
    world: World,
    filters: Seq<Doc>,
    selected: Track,
    working: Seq<char>,
    cursor: Cursor,
    e: StageError,
    turns: nat,
)
    ensures
        run_trace(world, filters, selected, working, cursor, LastView::Failed(e), turns) == (RunTrace {
            result: Err(RunError::Stage(e)),
            invoked: Seq::empty(),
            wrote: Seq::empty(),
            ends: Seq::empty(),
        }),
{
}

/// Only stages without a commit are run or written: every stage whose
/// transformation runs, and every stage for which a file is written or
/// removed, found nothing where its commit belongs. So a sequence whose
/// stages all find their commits runs no transformation and changes no file.
pub proof fn run_touches_only_uncommitted(
    world: World,
    filters: Seq<Doc>,
    selected: Track,
    working: Seq<char>,
    cursor: Cursor,
    last: LastView,
    turns: nat,
)
    ensures
        forall|i: int|
            0 <= i < run_trace(world, filters, selected, working, cursor, last, turns).invoked.len()
                ==> (world.commits)(
                #[trigger] run_trace(world, filters, selected, working, cursor, last, turns).invoked[i],
            ) is Absent,
        forall|i: int|
            0 <= i < run_trace(world, filters, selected, working, cursor, last, turns).wrote.len()
                ==> (world.commits)(
                #[trigger] run_trace(world, filters, selected, working, cursor, last, turns).wrote[i],
            ) is Absent,
    decreases turns,
{
    match turn(filters, selected, working, cursor, last) {
        TurnView::Stage { number, input, next, .. } => {
            if turns > 0 {
                let stage = stage_end(world, input, track_place(working, selected), number);
                if !((world.commits)(number) is Absent) {
                    committed_stage_does_nothing(world, input, track_place(working, selected), number);
                }
                run_touches_only_uncommitted(
                    world,
                    filters,
                    selected,
                    working,
                    next,
                    stage.last,
                    (turns - 1) as nat,
                );
            }
        },
        _ => {},
    }
}

/// A stage that finds a commit ends with the track that the commit holds.
pub proof fn committed_stage_is_resumed(
    world: World,
    input: Track,
    working: Seq<char>,
    stage: u32,
    text: Seq<char>,
    track: Track,
)
    requires
        (world.commits)(stage) == CommitView::Found(text),
        commit_of(text) == Ok::<Track, crate::mkv::CommitError>(track),
    ensures
        stage_end(world, input, working, stage).last == LastView::Left(track),
{
    reveal_with_fuel(stage_trace, 3);
}

/// Whether the commits of a world hold what the stages of a run left: for
/// each stage that left a track there is a commit that reads back as that
/// track.
pub open spec fn holds_commits_of(world: World, ends: Seq<(u32, LastView)>) -> bool {
    forall|i: int|
        0 <= i < ends.len() ==> ((#[trigger] ends[i]).1 matches LastView::Left(track) ==> (
        (world.commits)(ends[i].0) matches CommitView::Found(text) && commit_of(text) == Ok::<
            Track,
            crate::mkv::CommitError,
        >(track)))
}

/// A run that is repeated over the commits of a run that went well ends with
/// the same track, runs no transformation and writes and removes no file.
///
/// `first` is the world of the run that went well and `second` the world of
/// the repetition, whose commits hold what the stages of the first run left.
pub proof fn repeated_run_resumes(
    first: World,
    second: World,
    filters: Seq<Doc>,
    selected: Track,
    working: Seq<char>,
    cursor: Cursor,
    last: LastView,
    turns: nat,
)
    requires
        run_trace(first, filters, selected, working, cursor, last, turns).result is Ok,
        holds_commits_of(
            second,
            run_trace(first, filters, selected, working, cursor, last, turns).ends,
        ),
    ensures
        run_trace(second, filters, selected, working, cursor, last, turns).result == run_trace(
            first,
            filters,
            selected,
            working,
            cursor,
            last,
            turns,
        ).result,
        run_trace(second, filters, selected, working, cursor, last, turns).invoked.len() == 0,
        run_trace(second, filters, selected, working, cursor, last, turns).wrote.len() == 0,
    decreases turns,
{
    let one = run_trace(first, filters, selected, working, cursor, last, turns);
    match turn(filters, selected, working, cursor, last) {
        TurnView::Stage { number, input, next, .. } => {
            if turns > 0 {
                let stage = stage_end(first, input, track_place(working, selected), number);
                let rest = run_trace(
                    first,
                    filters,
                    selected,
                    working,
                    next,
                    stage.last,
                    (turns - 1) as nat,
                );
                assert(one.ends[0] == (number, stage.last));
                match stage.last {
                    LastView::Left(track) => {
                        let text = (second.commits)(number)->Found_0;
                        committed_stage_is_resumed(
                            second,
                            input,
                            track_place(working, selected),
                            number,
                            text,
                            track,
                        );
                        committed_stage_does_nothing(
                            second,
                            input,
                            track_place(working, selected),
                            number,
                        );
                        assert forall|i: int| 0 <= i < rest.ends.len() implies ((
                        #[trigger] rest.ends[i]).1 matches LastView::Left(t) ==> ((second.commits)(
                            rest.ends[i].0,
                        ) matches CommitView::Found(x) && commit_of(x) == Ok::<
                            Track,
                            crate::mkv::CommitError,
                        >(t))) by {
                            assert(one.ends[i + 1] == rest.ends[i]);
                        }
                        repeated_run_resumes(
                            first,
                            second,
                            filters,
                            selected,
                            working,
                            next,
                            stage.last,
                            (turns - 1) as nat,
                        );
                    },
                    LastView::Failed(e) => {
                        failure_ends_the_run(
                            first,
                            filters,
                            selected,
                            working,
                            next,
                            e,
                            (turns - 1) as nat,
                        );
                    },
                    LastView::Nothing => {
                        stage_ends_somehow(first, input, track_place(working, selected), number);
                    },
                }
            }
        },
        _ => {},
    }
}

/// A stage ends with a track or in failure.
pub proof fn stage_ends_somehow(world: World, input: Track, working: Seq<char>, stage: u32)
    ensures
        !(stage_end(world, input, working, stage).last is Nothing),
{
    reveal_with_fuel(stage_trace, 6);
}

/// A stage without commit whose work goes well runs its transformation on
/// the track that came in, and ends with the track that the transformation
/// left.
pub proof fn uncommitted_stage_runs(
    world: World,
    input: Track,
    working: Seq<char>,
    stage: u32,
    new: Track,
)
    requires
        (world.commits)(stage) is Absent,
        (world.acts)(stage, input) == Some(new),
        (world.saves)(stage),
        stage > 1 ==> (world.cleans)(stage),
    ensures
        stage_end(world, input, working, stage).last == LastView::Left(new),
        stage_end(world, input, working, stage).invoked,
        stage_end(world, input, working, stage).wrote,
{
    reveal_with_fuel(stage_trace, 6);
}

} // verus!
