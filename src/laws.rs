//! Properties of reconciliation that relate several operations.
use crate::color::color_or_gray;
use crate::registry::{
    apply_edit, concat_map, has_number, kept_of, look_of, record_wf, records_wf, release_of,
    releases, spawn_of, spawns, sync_commands, synced, update_of, updates, Edit, RenderCommand,
    SceneSettings, VectorRecord,
};
use crate::text::lemma_identifier_injective;
use vstd::prelude::*;

verus! {

/// The handle a command acts on, if it acts on a surface.
pub open spec fn handle_of(c: RenderCommand) -> Option<u64> {
    match c {
        RenderCommand::Spawn { handle, .. } => Some(handle),
        RenderCommand::Release { handle } => Some(handle),
        RenderCommand::Update { handle, .. } => Some(handle),
        RenderCommand::UpdateSphere { .. } => None,
    }
}

/// Whether `r` is settled: visible, with its surface in place.
pub open spec fn settled(r: VectorRecord) -> bool {
    r.completely_visible && r.surface is Some
}

proof fn lemma_concat_map_source<A, B>(s: Seq<A>, f: spec_fn(A) -> Seq<B>, k: int)
    requires
        0 <= k < concat_map(s, f).len(),
    ensures
        exists|j: int| 0 <= j < s.len() && f(s[j]).contains(#[trigger] concat_map(s, f)[k]),
    decreases s.len(),
{
    let front = concat_map(s.drop_last(), f);
    if k < front.len() {
        lemma_concat_map_source(s.drop_last(), f, k);
        let j = choose|j: int|
            0 <= j < s.drop_last().len() && f(s.drop_last()[j]).contains(
                #[trigger] concat_map(s.drop_last(), f)[k],
            );
        assert(s[j] == s.drop_last()[j]);
        assert(concat_map(s, f)[k] == front[k]);
    } else {
        let j = s.len() - 1;
        assert(concat_map(s, f)[k] == f(s.last())[k - front.len()]);
        assert(f(s[j]).contains(concat_map(s, f)[k]));
    }
}

proof fn lemma_concat_map_contains<A, B>(s: Seq<A>, f: spec_fn(A) -> Seq<B>, j: int, x: B)
    requires
        0 <= j < s.len(),
        f(s[j]).contains(x),
    ensures
        concat_map(s, f).contains(x),
    decreases s.len(),
{
    let front = concat_map(s.drop_last(), f);
    if j < s.len() - 1 {
        assert(s[j] == s.drop_last()[j]);
        lemma_concat_map_contains(s.drop_last(), f, j, x);
        let m = choose|m: int| 0 <= m < front.len() && #[trigger] front[m] == x;
        assert(concat_map(s, f)[m] == x);
    } else {
        let m = choose|m: int| 0 <= m < f(s.last()).len() && #[trigger] f(s.last())[m] == x;
        assert(concat_map(s, f)[front.len() + m] == x);
    }
}

proof fn lemma_concat_map_settled(s: Seq<VectorRecord>)
    requires
        forall|i: int| 0 <= i < s.len() ==> settled(#[trigger] s[i]),
    ensures
        synced(s) == s,
        spawns(s) == Seq::<RenderCommand>::empty(),
        releases(s) == Seq::<RenderCommand>::empty(),
    decreases s.len(),
{
    if s.len() > 0 {
        let t = s.drop_last();
        assert forall|i: int| 0 <= i < t.len() implies settled(#[trigger] t[i]) by {
            assert(t[i] == s[i]);
        }
        lemma_concat_map_settled(t);
        assert(settled(s[s.len() - 1]));
        assert(synced(s) =~= s);
        assert(spawns(s) =~= Seq::<RenderCommand>::empty());
        assert(releases(s) =~= Seq::<RenderCommand>::empty());
    }
}

proof fn lemma_synced_settled(s: Seq<VectorRecord>)
    ensures
        forall|i: int| 0 <= i < synced(s).len() ==> settled(#[trigger] synced(s)[i]),
{
    let f = |r: VectorRecord| kept_of(r);
    assert forall|i: int| 0 <= i < synced(s).len() implies settled(#[trigger] synced(s)[i]) by {
        lemma_concat_map_source(s, f, i);
    }
}

/// Reconciling twice with no edit in between changes nothing the second
/// time: the records stay as the first pass left them and no command is
/// issued.
pub proof fn lemma_sync_idempotent(s: Seq<VectorRecord>, st: SceneSettings)
    ensures
        synced(synced(s)) == synced(s),
        sync_commands(synced(s), false, st) == Seq::<RenderCommand>::empty(),
{
    lemma_synced_settled(s);
    lemma_concat_map_settled(synced(s));
    assert(sync_commands(synced(s), false, st) =~= Seq::<RenderCommand>::empty());
}

/// Every command of a reconciliation acts on the surface of a record of
/// the same number, and every record it keeps was there before.
proof fn lemma_commands_from_records(s: Seq<VectorRecord>, dirty: bool, st: SceneSettings, k: int)
    requires
        forall|i: int| 0 <= i < s.len() ==> (#[trigger] s[i]).surface is None || s[i].surface
            == Some(s[i].number),
        0 <= k < sync_commands(s, dirty, st).len(),
    ensures
        handle_of(sync_commands(s, dirty, st)[k]) is Some ==> exists|j: int|
            0 <= j < s.len() && handle_of(sync_commands(s, dirty, st)[k]) == Some(
                #[trigger] s[j].number,
            ),
{
    let c = sync_commands(s, dirty, st)[k];
    let a = spawns(s);
    let b = releases(s);
    if k < a.len() {
        assert(c == a[k]);
        lemma_concat_map_source(s, |r: VectorRecord| spawn_of(r), k);
    } else if k < a.len() + b.len() {
        assert(c == b[k - a.len()]);
        lemma_concat_map_source(s, |r: VectorRecord| release_of(r), k - a.len());
    } else if dirty && k < a.len() + b.len() + updates(s).len() {
        assert(c == updates(s)[k - a.len() - b.len()]);
        lemma_concat_map_source(s, |r: VectorRecord| update_of(r), k - a.len() - b.len());
    }
}

/// A record created and then marked for deletion before any reconciliation
/// is gone after the next one, and no command of that pass acts on a
/// surface under its number.
pub proof fn lemma_add_then_remove(
    s: Seq<VectorRecord>,
    next: u64,
    r: VectorRecord,
    dirty: bool,
    st: SceneSettings,
)
    requires
        records_wf(s, next),
        r.number == next,
        r.surface is None,
    ensures
        ({
            let t = s.push(r).update(
                s.len() as int,
                VectorRecord { completely_visible: false, ..s.push(r)[s.len() as int] },
            );
            &&& !has_number(synced(t), next)
            &&& forall|k: int|
                0 <= k < sync_commands(t, dirty, st).len() ==> handle_of(
                    #[trigger] sync_commands(t, dirty, st)[k],
                ) != Some(next)
        }),
{
    let gone = VectorRecord { completely_visible: false, ..r };
    let t = s.push(r).update(s.len() as int, gone);
    assert(t =~= s.push(gone));
    assert(t.drop_last() =~= s);
    assert(synced(t) =~= synced(s));
    assert(spawns(t) =~= spawns(s));
    assert(releases(t) =~= releases(s));
    assert(updates(t) =~= updates(s));
    assert(sync_commands(t, dirty, st) =~= sync_commands(s, dirty, st));
    assert forall|i: int| 0 <= i < s.len() implies (#[trigger] s[i]).surface is None
        || s[i].surface == Some(s[i].number) by {
        assert(record_wf(s[i]));
    }
    assert forall|k: int|
        0 <= k < sync_commands(s, dirty, st).len() implies handle_of(
        #[trigger] sync_commands(s, dirty, st)[k],
    ) != Some(next) by {
        lemma_commands_from_records(s, dirty, st, k);
    }
    if has_number(synced(s), next) {
        let i = choose|i: int| 0 <= i < synced(s).len() && #[trigger] synced(s)[i].number == next;
        lemma_concat_map_source(s, |r: VectorRecord| kept_of(r), i);
        let j = choose|j: int|
            0 <= j < s.len() && kept_of(s[j]).contains(#[trigger] synced(s)[i]);
        assert(s[j].number < next);
    }
}

/// Where a command of a reconciliation comes from: the creation, deletion
/// or update step of one record.
proof fn lemma_command_source(s: Seq<VectorRecord>, dirty: bool, st: SceneSettings, k: int)
    requires
        0 <= k < sync_commands(s, dirty, st).len(),
    ensures
        handle_of(sync_commands(s, dirty, st)[k]) is Some ==> exists|j: int|
            0 <= j < s.len() && (spawn_of(#[trigger] s[j]).contains(sync_commands(s, dirty, st)[k])
                || release_of(s[j]).contains(sync_commands(s, dirty, st)[k]) || update_of(
                s[j],
            ).contains(sync_commands(s, dirty, st)[k])),
{
    let c = sync_commands(s, dirty, st)[k];
    let a = spawns(s);
    let b = releases(s);
    if k < a.len() {
        assert(c == a[k]);
        lemma_concat_map_source(s, |r: VectorRecord| spawn_of(r), k);
    } else if k < a.len() + b.len() {
        assert(c == b[k - a.len()]);
        lemma_concat_map_source(s, |r: VectorRecord| release_of(r), k - a.len());
    } else if dirty && k < a.len() + b.len() + updates(s).len() {
        assert(c == updates(s)[k - a.len() - b.len()]);
        lemma_concat_map_source(s, |r: VectorRecord| update_of(r), k - a.len() - b.len());
    }
}

/// After a color edit of a record whose surface exists, the next
/// reconciliation updates that surface, under the same handle, to a
/// material of the new color; it is the only command on that handle, and
/// the record keeps the handle.
pub proof fn lemma_color_edit_updates(
    s: Seq<VectorRecord>,
    next: u64,
    i: int,
    c: String,
    st: SceneSettings,
)
    requires
        records_wf(s, next),
        0 <= i < s.len(),
        settled(s[i]),
    ensures
        ({
            let t = s.update(i, apply_edit(s[i], Edit::SetColor(c)));
            let h = s[i].surface->0;
            let cmds = sync_commands(t, true, st);
            &&& cmds.contains(RenderCommand::Update { handle: h, look: look_of(t[i]) })
            &&& look_of(t[i]).material.color == color_or_gray(c@)
            &&& forall|k: int|
                0 <= k < cmds.len() && handle_of(#[trigger] cmds[k]) == Some(h) ==> cmds[k]
                    == RenderCommand::Update { handle: h, look: look_of(t[i]) }
            &&& synced(t).contains(t[i])
            &&& t[i].surface == Some(h)
        }),
{
    let t = s.update(i, apply_edit(s[i], Edit::SetColor(c)));
    let h = s[i].surface->0;
    let cmds = sync_commands(t, true, st);
    let u = RenderCommand::Update { handle: h, look: look_of(t[i]) };
    assert(record_wf(s[i]));
    assert(update_of(t[i]) == seq![u]);
    assert(update_of(t[i]).contains(u)) by {
        assert(update_of(t[i])[0] == u);
    }
    lemma_concat_map_contains(t, |r: VectorRecord| update_of(r), i, u);
    let m = choose|m: int| 0 <= m < updates(t).len() && #[trigger] updates(t)[m] == u;
    assert(cmds[spawns(t).len() + releases(t).len() + m] == u);
    assert(kept_of(t[i]).contains(t[i])) by {
        assert(kept_of(t[i])[0] == t[i]);
    }
    lemma_concat_map_contains(t, |r: VectorRecord| kept_of(r), i, t[i]);
    assert forall|k: int|
        0 <= k < cmds.len() && handle_of(#[trigger] cmds[k]) == Some(h) implies cmds[k] == u by {
        lemma_command_source(t, true, st, k);
        let j = choose|j: int|
            0 <= j < t.len() && (spawn_of(#[trigger] t[j]).contains(cmds[k]) || release_of(
                t[j],
            ).contains(cmds[k]) || update_of(t[j]).contains(cmds[k]));
        assert(record_wf(s[j]));
        if j != i {
            assert(t[j] == s[j]);
            assert(s[j].number != s[i].number);
        }
    }
}

/// A visible record whose surface is switched off still gets its surface
/// created, drawn hidden: the object exists but is not shown.
pub proof fn lemma_hidden_surface(s: Seq<VectorRecord>, i: int, dirty: bool, st: SceneSettings)
    requires
        0 <= i < s.len(),
        s[i].completely_visible,
        !s[i].surface_visible,
        s[i].surface is None,
    ensures
        sync_commands(s, dirty, st).contains(
            RenderCommand::Spawn { handle: s[i].number, look: look_of(s[i]) },
        ),
        !look_of(s[i]).visible,
        synced(s).contains(VectorRecord { surface: Some(s[i].number), ..s[i] }),
{
    let c = RenderCommand::Spawn { handle: s[i].number, look: look_of(s[i]) };
    let kept = VectorRecord { surface: Some(s[i].number), ..s[i] };
    assert(spawn_of(s[i]).contains(c)) by {
        assert(spawn_of(s[i])[0] == c);
    }
    lemma_concat_map_contains(s, |r: VectorRecord| spawn_of(r), i, c);
    let m = choose|m: int| 0 <= m < spawns(s).len() && #[trigger] spawns(s)[m] == c;
    assert(sync_commands(s, dirty, st)[m] == c);
    assert(kept_of(s[i]).contains(kept)) by {
        assert(kept_of(s[i])[0] == kept);
    }
    lemma_concat_map_contains(s, |r: VectorRecord| kept_of(r), i, kept);
}

/// Records of a well-formed registry have pairwise distinct identifiers.
pub proof fn lemma_identifiers_distinct(s: Seq<VectorRecord>, next: u64)
    requires
        records_wf(s, next),
    ensures
        forall|i: int, j: int| 0 <= i < j < s.len() ==> (#[trigger] s[i]).id@ != (#[trigger] s[j]).id@,
{
    assert forall|i: int, j: int| 0 <= i < j < s.len() implies (#[trigger] s[i]).id@ != (
    #[trigger] s[j]).id@ by {
        assert(record_wf(s[i]) && record_wf(s[j]));
        lemma_identifier_injective(s[i].number as nat, s[j].number as nat);
    }
}

} // verus!
