//! Stream selection: binding the roles of a configuration to probed tracks.

use crate::codec::{display, show};
use crate::glob::{accepts, matches_glob};
use crate::mkv::{Stream, Track};
use crate::text::{join3, same};
use crate::utils::{priority_of, streampriority};
use crate::value::{items_view, members_view, Doc, Members, Value};
use vstd::prelude::*;

verus! {

/// A role bound to a track: the role's name, the option that matched, and the
/// track.
pub type Pick = (Seq<char>, Doc, Track);

/// The pattern that a `file` entry of an option stands for: the entry as a
/// directory somewhere above the file.
pub open spec fn file_pattern(entry: Doc) -> Seq<char> {
    "*/"@ + display(entry) + "/*"@
}

/// Whether a track comes from a file that an option asks for. An option
/// without `file` asks for no file in particular; one with `file` asks for a
/// path that at least one of the listed patterns matches.
pub open spec fn file_matches(option: Doc, track: Track) -> bool {
    !option.has_key("file"@) || exists|i: int|
        0 <= i < option.get("file"@).members().len() && accepts(
            file_pattern(#[trigger] option.get("file"@).members()[i]),
            track.path,
        )
}

/// The language of a track as options name it: its tag, or `None` where it
/// has no tag.
pub open spec fn language_of(track: Track) -> Seq<char> {
    match track.language {
        Some(tag) => tag,
        None => "None"@,
    }
}

/// Whether an option matches a track: the option is not the marker of an
/// absent role, and every predicate it names holds of the track.
pub open spec fn option_matches(option: Doc, track: Track) -> bool {
    &&& option.get("missing"@) != Doc::Boolean(true)
    &&& option.has_key("type"@) ==> option.get("type"@) == Doc::Text(track.streamtype)
    &&& option.has_key("lang"@) ==> option.get("lang"@) == Doc::Text(language_of(track))
    &&& option.has_key("id"@) ==> option.get("id"@).lists(track.id)
    &&& file_matches(option, track)
}

/// The first track at or after `from` that an option matches; the number of
/// tracks if there is none.
pub open spec fn track_from(option: Doc, tracks: Seq<Track>, from: int) -> int
    decreases tracks.len() - from,
{
    if from < 0 || from >= tracks.len() {
        tracks.len() as int
    } else if option_matches(option, tracks[from]) {
        from
    } else {
        track_from(option, tracks, from + 1)
    }
}

/// The first option at or after `from` that matches some track; the number
/// of options if there is none.
pub open spec fn option_from(options: Seq<Doc>, tracks: Seq<Track>, from: int) -> int
    decreases options.len() - from,
{
    if from < 0 || from >= options.len() {
        options.len() as int
    } else if track_from(options[from], tracks, 0) < tracks.len() {
        from
    } else {
        option_from(options, tracks, from + 1)
    }
}

/// The match of a role: the first option, in order, that matches a track,
/// with the first track it matches.
pub open spec fn match_of(options: Seq<Doc>, tracks: Seq<Track>) -> Option<(Doc, Track)> {
    let at = option_from(options, tracks, 0);
    if at < options.len() {
        Some((options[at], tracks[track_from(options[at], tracks, 0)]))
    } else {
        None
    }
}

/// Whether an option marks its role as one that may be absent among these
/// tracks: it carries the `missing` marker, and no track comes from a file
/// that the option asks for.
pub open spec fn excuses(option: Doc, tracks: Seq<Track>) -> bool {
    option.get("missing"@) == Doc::Boolean(true) && forall|j: int|
        0 <= j < tracks.len() ==> !file_matches(option, #[trigger] tracks[j])
}

/// Whether a role may be absent: one of its options excuses it.
pub open spec fn optional(options: Seq<Doc>, tracks: Seq<Track>) -> bool {
    exists|i: int| 0 <= i < options.len() && excuses(#[trigger] options[i], tracks)
}

/// The picks of the first `n` roles, in the order of the roles, or the name
/// of the first role that has no match and may not be absent.
pub open spec fn picks_upto(roles: Members, tracks: Seq<Track>, n: nat) -> Result<
    Seq<Pick>,
    Seq<char>,
>
    decreases n,
{
    if n == 0 || n > roles.len() {
        Ok(Seq::empty())
    } else {
        match picks_upto(roles, tracks, (n - 1) as nat) {
            Err(role) => Err(role),
            Ok(picks) => {
                let name = roles[n - 1].0;
                let options = roles[n - 1].1.members();
                match match_of(options, tracks) {
                    Some((option, track)) => Ok(picks.push((name, option, track))),
                    None => if optional(options, tracks) {
                        Ok(picks)
                    } else {
                        Err(name)
                    },
                }
            },
        }
    }
}

/// The picks among the first `n` of a list whose track has the rank `rank`,
/// in their order.
pub open spec fn of_rank(picks: Seq<Pick>, rank: u32, n: nat) -> Seq<Pick>
    decreases n,
{
    if n == 0 || n > picks.len() {
        Seq::empty()
    } else if priority_of(picks[n - 1].2.streamtype) == rank {
        of_rank(picks, rank, (n - 1) as nat).push(picks[n - 1])
    } else {
        of_rank(picks, rank, (n - 1) as nat)
    }
}

/// All the picks of a list whose track has the rank `rank`, in their order.
pub open spec fn ranked(picks: Seq<Pick>, rank: u32) -> Seq<Pick> {
    of_rank(picks, rank, picks.len())
}

/// A list of picks in output order: by rank, and within a rank in the order
/// they had.
pub open spec fn in_order(picks: Seq<Pick>) -> Seq<Pick> {
    ranked(picks, 1) + ranked(picks, 2) + ranked(picks, 3) + ranked(picks, 4)
}

/// What selection gives for a role configuration and a list of tracks: the
/// picks of all roles in output order, or the role that failed.
pub open spec fn selection(cfg: Doc, tracks: Seq<Track>) -> Result<Seq<Pick>, Seq<char>> {
    match picks_upto(cfg.entries(), tracks, cfg.entries().len()) {
        Ok(picks) => Ok(in_order(picks)),
        Err(role) => Err(role),
    }
}

/// The model of a list of tracks.
pub open spec fn tracks_view(streams: Seq<Stream>) -> Seq<Track> {
    Seq::new(streams.len(), |i: int| streams[i]@)
}

/// The model of a list of picks.
pub open spec fn picks_view(picks: Seq<(String, Value, Stream)>) -> Seq<Pick> {
    Seq::new(picks.len(), |i: int| (picks[i].0@, picks[i].1@, picks[i].2@))
}

/// A role that no track could be bound to.
#[derive(Debug, PartialEq, Eq)]
pub struct SelectionError {
    pub role: String,
}

/// Whether a track comes from a file that an option asks for.
pub fn check_file(cfg: &Value, stream: &Stream) -> (r: bool)
    ensures
        r == file_matches(cfg@, stream@),
{
    let list = match cfg.get("file") {
        Some(list) => list,
        None => {
            return true;
        },
    };
    let entries = list.members();
    let mut i: usize = 0;
    while i < entries.len()
        invariant
            i <= entries.len(),
            items_view(entries@) == cfg@.get("file"@).members(),
            forall|j: int|
                0 <= j < i ==> !accepts(
                    file_pattern(#[trigger] cfg@.get("file"@).members()[j]),
                    stream@.path,
                ),
        decreases entries.len() - i,
    {
        let name = show(&entries[i]);
        let pattern = join3("*/", name.as_str(), "/*");
        assert(cfg@.get("file"@).members()[i as int] == entries@[i as int]@);
        if matches_glob(pattern.as_str(), stream.path.as_str()) {
            return true;
        }
        i += 1;
    }
    assert(cfg@.get("file"@).members().len() == entries@.len()) by {
        assert(items_view(entries@).len() == entries@.len());
    }
    false
}

/// Whether the document under `key` in an option is the text `s`.
fn field_is(cfg: &Value, key: &str, s: &str) -> (r: bool)
    ensures
        r == (cfg@.get(key@) == Doc::Text(s@)),
{
    match cfg.get(key) {
        Some(value) => value.is_text(s),
        None => false,
    }
}

/// Whether an option carries the marker of an absent role.
fn is_missing(cfg: &Value) -> (r: bool)
    ensures
        r == (cfg@.get("missing"@) == Doc::Boolean(true)),
{
    match cfg.get("missing") {
        Some(value) => value.is_true(),
        None => false,
    }
}

/// Whether an option matches a track.
pub fn check_match(cfg: &Value, stream: &Stream) -> (r: bool)
    ensures
        r == option_matches(cfg@, stream@),
{
    if is_missing(cfg) {
        return false;
    }
    if cfg.has_key("type") && !field_is(cfg, "type", stream.streamtype.as_str()) {
        return false;
    }
    if cfg.has_key("lang") {
        let hit = match &stream.language {
            Some(tag) => field_is(cfg, "lang", tag.as_str()),
            None => field_is(cfg, "lang", "None"),
        };
        if !hit {
            return false;
        }
    }
    if cfg.has_key("id") {
        let hit = match cfg.get("id") {
            Some(ids) => ids.lists(stream.id.as_str()),
            None => false,
        };
        if !hit {
            return false;
        }
    }
    check_file(cfg, stream)
}

/// The match of a role among its options `cfg`: the first option, in order,
/// that matches a track, with the first track it matches.
pub fn find_match(cfg: &Value, streams: &Vec<Stream>) -> (r: Option<(Value, Stream)>)
    ensures
        r is Some == match_of(cfg@.members(), tracks_view(streams@)) is Some,
        r matches Some((option, stream)) ==> match_of(cfg@.members(), tracks_view(streams@))
            == Some((option@, stream@)),
{
    let options = cfg.members();
    let ghost all = cfg@.members();
    let ghost tracks = tracks_view(streams@);
    assert(all.len() == options@.len()) by {
        assert(items_view(options@).len() == options@.len());
    }
    let mut i: usize = 0;
    while i < options.len()
        invariant
            i <= options.len(),
            items_view(options@) == all,
            all == cfg@.members(),
            all.len() == options@.len(),
            tracks == tracks_view(streams@),
            option_from(all, tracks, 0) == option_from(all, tracks, i as int),
        decreases options.len() - i,
    {
        assert(all[i as int] == options@[i as int]@);
        let mut j: usize = 0;
        while j < streams.len()
            invariant
                j <= streams.len(),
                i < options.len(),
                items_view(options@) == all,
                all == cfg@.members(),
                all.len() == options@.len(),
                all[i as int] == options@[i as int]@,
                tracks == tracks_view(streams@),
                option_from(all, tracks, 0) == option_from(all, tracks, i as int),
                track_from(all[i as int], tracks, 0) == track_from(all[i as int], tracks, j as int),
            decreases streams.len() - j,
        {
            assert(tracks[j as int] == streams@[j as int]@);
            if check_match(&options[i], &streams[j]) {
                return Some((options[i].copy(), streams[j].copy()));
            }
            j += 1;
        }
        i += 1;
    }
    None
}

/// Whether an option excuses its role among these tracks.
fn is_excuse(option: &Value, streams: &Vec<Stream>) -> (r: bool)
    ensures
        r == excuses(option@, tracks_view(streams@)),
{
    if !is_missing(option) {
        return false;
    }
    let ghost tracks = tracks_view(streams@);
    let mut j: usize = 0;
    while j < streams.len()
        invariant
            j <= streams.len(),
            tracks == tracks_view(streams@),
            forall|k: int| 0 <= k < j ==> !file_matches(option@, #[trigger] tracks[k]),
        decreases streams.len() - j,
    {
        assert(tracks[j as int] == streams@[j as int]@);
        if check_file(option, &streams[j]) {
            return false;
        }
        j += 1;
    }
    true
}

/// Whether a role with the options `cfg` may be absent among these tracks.
pub fn is_optional(cfg: &Value, streams: &Vec<Stream>) -> (r: bool)
    ensures
        r == optional(cfg@.members(), tracks_view(streams@)),
{
    let options = cfg.members();
    let ghost all = cfg@.members();
    let ghost tracks = tracks_view(streams@);
    assert(all.len() == options@.len()) by {
        assert(items_view(options@).len() == options@.len());
    }
    let mut i: usize = 0;
    while i < options.len()
        invariant
            i <= options.len(),
            items_view(options@) == all,
            all == cfg@.members(),
            all.len() == options@.len(),
            tracks == tracks_view(streams@),
            forall|k: int| 0 <= k < i ==> !excuses(#[trigger] all[k], tracks),
        decreases options.len() - i,
    {
        assert(all[i as int] == options@[i as int]@);
        if is_excuse(&options[i], streams) {
            return true;
        }
        i += 1;
    }
    false
}

/// A copy of the picks whose track has the rank `rank`, added to `out` in
/// their order.
fn take_rank(picks: &Vec<(String, Value, Stream)>, rank: u32, out: &mut Vec<(String, Value, Stream)>)
    ensures
        picks_view(final(out)@) == picks_view(old(out)@) + ranked(picks_view(picks@), rank),
{
    let ghost all = picks_view(picks@);
    let ghost start = picks_view(out@);
    assert(start + of_rank(all, rank, 0) =~= start);
    let mut i: usize = 0;
    while i < picks.len()
        invariant
            i <= picks.len(),
            all == picks_view(picks@),
            picks_view(out@) == start + of_rank(all, rank, i as nat),
        decreases picks.len() - i,
    {
        assert(all[i as int].2 == picks@[i as int].2@);
        if streampriority(&picks[i].2) == rank {
            let ghost before = picks_view(out@);
            out.push((picks[i].0.clone(), picks[i].1.copy(), picks[i].2.copy()));
            assert(picks_view(out@) =~= before.push(all[i as int]));
            assert(start + of_rank(all, rank, (i + 1) as nat) =~= before.push(all[i as int]));
        }
        i += 1;
    }
}

/// A list of picks in output order: by rank, and within a rank in the order
/// they had.
pub fn sort_picks(picks: &Vec<(String, Value, Stream)>) -> (r: Vec<(String, Value, Stream)>)
    ensures
        picks_view(r@) == in_order(picks_view(picks@)),
{
    let mut out: Vec<(String, Value, Stream)> = Vec::new();
    assert(picks_view(out@) =~= Seq::empty());
    take_rank(picks, 1, &mut out);
    take_rank(picks, 2, &mut out);
    take_rank(picks, 3, &mut out);
    take_rank(picks, 4, &mut out);
    assert(picks_view(out@) =~= in_order(picks_view(picks@)));
    out
}

/// Once selection has failed at a role, it stays failed there.
pub proof fn selection_stops(roles: Members, tracks: Seq<Track>, n: nat, m: nat)
    requires
        n <= m <= roles.len(),
        picks_upto(roles, tracks, n) is Err,
    ensures
        picks_upto(roles, tracks, m) == picks_upto(roles, tracks, n),
    decreases m,
{
    if n < m {
        selection_stops(roles, tracks, n, (m - 1) as nat);
    }
}

/// Binds every role of a configuration to a track.
///
/// `cfg` maps each role to its options. For each role in order the first
/// option that matches a track is taken, with the first track it matches; a
/// role without match is passed over where one of its options excuses it,
/// which is an option with the `missing` marker that asks for a file from
/// which no track comes, and fails the selection otherwise. The picks come out by rank of their track,
/// video first, and within a rank in the order of the roles.
pub fn find(cfg: &Value, streams: &Vec<Stream>) -> (r: Result<
    Vec<(String, Value, Stream)>,
    SelectionError,
>)
    ensures
        r matches Ok(list) ==> selection(cfg@, tracks_view(streams@)) == Ok::<
            Seq<Pick>,
            Seq<char>,
        >(picks_view(list@)),
        r matches Err(e) ==> selection(cfg@, tracks_view(streams@)) == Err::<
            Seq<Pick>,
            Seq<char>,
        >(e.role@),
{
    let roles = cfg.entries();
    let ghost all = cfg@.entries();
    let ghost tracks = tracks_view(streams@);
    assert(all.len() == roles@.len()) by {
        assert(members_view(roles@).len() == roles@.len());
    }
    let mut new: Vec<(String, Value, Stream)> = Vec::new();
    assert(picks_view(new@) =~= Seq::empty());
    let mut i: usize = 0;
    while i < roles.len()
        invariant
            i <= roles.len(),
            members_view(roles@) == all,
            all == cfg@.entries(),
            all.len() == roles@.len(),
            tracks == tracks_view(streams@),
            picks_upto(all, tracks, i as nat) == Ok::<Seq<Pick>, Seq<char>>(picks_view(new@)),
        decreases roles.len() - i,
    {
        assert(all[i as int] == (roles@[i as int].0@, roles@[i as int].1@));
        match find_match(&roles[i].1, streams) {
            Some((option, stream)) => {
                let ghost before = picks_view(new@);
                let name = roles[i].0.clone();
                new.push((name, option, stream));
                assert(picks_view(new@) =~= before.push((all[i as int].0, option@, stream@)));
            },
            None => {
                if !is_optional(&roles[i].1, streams) {
                    proof {
                        selection_stops(all, tracks, (i + 1) as nat, all.len());
                    }
                    return Err(SelectionError { role: roles[i].0.clone() });
                }
            },
        }
        i += 1;
    }
    Ok(sort_picks(&new))
}

/// Every pick of a rank has that rank.
pub proof fn ranked_has_rank(picks: Seq<Pick>, rank: u32, n: nat)
    ensures
        forall|i: int|
            0 <= i < of_rank(picks, rank, n).len() ==> priority_of(
                (#[trigger] of_rank(picks, rank, n)[i]).2.streamtype,
            ) == rank,
        of_rank(picks, rank, n).len() <= n,
    decreases n,
{
    if !(n == 0 || n > picks.len()) {
        ranked_has_rank(picks, rank, (n - 1) as nat);
    }
}

/// The picks of a rank in a list joined from two are those of the first, then
/// those of the second.
pub proof fn ranked_of_joined(a: Seq<Pick>, b: Seq<Pick>, rank: u32, n: nat)
    requires
        n <= b.len(),
    ensures
        of_rank(a + b, rank, a.len() + n) == ranked(a, rank) + of_rank(b, rank, n),
    decreases n,
{
    if n == 0 {
        same_prefix(a + b, a, rank, a.len());
        assert(ranked(a, rank) + of_rank(b, rank, 0) =~= ranked(a, rank));
    } else {
        ranked_of_joined(a, b, rank, (n - 1) as nat);
        assert((a + b)[a.len() + n - 1] == b[n - 1]);
        assert(ranked(a, rank) + of_rank(b, rank, n) =~= of_rank(a + b, rank, a.len() + n));
    }
}

/// The picks of a rank among the first `n` depend on the first `n` only.
pub proof fn same_prefix(a: Seq<Pick>, b: Seq<Pick>, rank: u32, n: nat)
    requires
        n <= a.len(),
        n <= b.len(),
        forall|i: int| 0 <= i < n ==> a[i] == b[i],
    ensures
        of_rank(a, rank, n) == of_rank(b, rank, n),
    decreases n,
{
    if n > 0 {
        same_prefix(a, b, rank, (n - 1) as nat);
    }
}

/// Among picks that all have one rank, those of that rank are all of them,
/// and those of another rank are none.
pub proof fn ranked_of_ranked(picks: Seq<Pick>, have: u32, want: u32, n: nat)
    requires
        n <= picks.len(),
        forall|i: int| 0 <= i < picks.len() ==> priority_of((#[trigger] picks[i]).2.streamtype) == have,
    ensures
        of_rank(picks, want, n) == (if have == want {
            picks.take(n as int)
        } else {
            Seq::empty()
        }),
    decreases n,
{
    if n > 0 {
        ranked_of_ranked(picks, have, want, (n - 1) as nat);
        if have == want {
            assert(picks.take(n as int) =~= picks.take(n - 1).push(picks[n - 1]));
        }
    } else {
        assert(picks.take(0) =~= Seq::empty());
    }
}

/// The output order loses and adds nothing, and keeps picks of equal rank in
/// the order they had: within each rank the output holds exactly the picks
/// that the input holds, in the same order.
pub proof fn in_order_is_stable(picks: Seq<Pick>, rank: u32)
    ensures
        ranked(in_order(picks), rank) == (if 1 <= rank <= 4 {
            ranked(picks, rank)
        } else {
            Seq::empty()
        }),
{
    let r1 = ranked(picks, 1);
    let r2 = ranked(picks, 2);
    let r3 = ranked(picks, 3);
    let r4 = ranked(picks, 4);
    ranked_has_rank(picks, 1, picks.len());
    ranked_has_rank(picks, 2, picks.len());
    ranked_has_rank(picks, 3, picks.len());
    ranked_has_rank(picks, 4, picks.len());
    ranked_of_ranked(r1, 1, rank, r1.len());
    ranked_of_ranked(r2, 2, rank, r2.len());
    ranked_of_ranked(r3, 3, rank, r3.len());
    ranked_of_ranked(r4, 4, rank, r4.len());
    assert(r1.take(r1.len() as int) =~= r1);
    assert(r2.take(r2.len() as int) =~= r2);
    assert(r3.take(r3.len() as int) =~= r3);
    assert(r4.take(r4.len() as int) =~= r4);
    ranked_of_joined(r1, r2, rank, r2.len());
    ranked_of_joined(r1 + r2, r3, rank, r3.len());
    ranked_of_joined(r1 + r2 + r3, r4, rank, r4.len());
    assert(ranked(in_order(picks), rank) =~= ranked(r1, rank) + ranked(r2, rank) + ranked(
        r3,
        rank,
    ) + ranked(r4, rank));
}

/// Every pick has one of the four ranks, so the ranks share out the first
/// `n` picks of a list among them.
pub proof fn ranks_share_out(picks: Seq<Pick>, n: nat)
    requires
        n <= picks.len(),
    ensures
        of_rank(picks, 1, n).len() + of_rank(picks, 2, n).len() + of_rank(picks, 3, n).len()
            + of_rank(picks, 4, n).len() == n,
    decreases n,
{
    if n > 0 {
        ranks_share_out(picks, (n - 1) as nat);
    }
}

/// The output order loses no pick and adds none.
pub proof fn in_order_keeps_all(picks: Seq<Pick>)
    ensures
        in_order(picks).len() == picks.len(),
{
    ranks_share_out(picks, picks.len());
}

/// The output order is by rank: a pick never comes after one of a higher
/// rank.
pub proof fn in_order_is_sorted(picks: Seq<Pick>, i: int, j: int)
    requires
        0 <= i <= j < in_order(picks).len(),
    ensures
        priority_of(in_order(picks)[i].2.streamtype) <= priority_of(
            in_order(picks)[j].2.streamtype,
        ),
{
    ranked_has_rank(picks, 1, picks.len());
    ranked_has_rank(picks, 2, picks.len());
    ranked_has_rank(picks, 3, picks.len());
    ranked_has_rank(picks, 4, picks.len());
    let r1 = ranked(picks, 1);
    let r2 = ranked(picks, 2);
    let r3 = ranked(picks, 3);
    let r4 = ranked(picks, 4);
    let all = in_order(picks);
    assert forall|k: int| 0 <= k < all.len() implies priority_of((#[trigger] all[k]).2.streamtype)
        == (if k < r1.len() {
        1u32
    } else if k < r1.len() + r2.len() {
        2u32
    } else if k < r1.len() + r2.len() + r3.len() {
        3u32
    } else {
        4u32
    }) by {
        if k < r1.len() {
            assert(all[k] == r1[k]);
        } else if k < r1.len() + r2.len() {
            assert(all[k] == r2[k - r1.len()]);
        } else if k < r1.len() + r2.len() + r3.len() {
            assert(all[k] == r3[k - r1.len() - r2.len()]);
        } else {
            assert(all[k] == r4[k - r1.len() - r2.len() - r3.len()]);
        }
    }
}

} // verus!
