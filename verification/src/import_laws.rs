//! What the import of an older installation promises: which names and documents it takes, what it
//! asks to be linked again, and where it refuses to write.

use crate::json::JsonView;
use crate::migration::{AssetFault, LocalMedia, RelinkReason, RelinkView, TargetLook};
use vstd::prelude::*;

verus! {

/// A provider's directory has a short name of small letters, digits and hyphens.
pub proof fn provider_names_are_plain(value: Seq<char>, i: int)
    ensures
        crate::migration::provider_slug(value) ==> 1 <= value.len() <= 64,
        crate::migration::provider_slug(value) && 0 <= i < value.len() ==> value[i] != '/'
            && value[i] != '.' && value[i] != '_' && !('A' <= value[i] <= 'Z'),
        crate::migration::provider_slug("openrouter"@) && crate::migration::provider_slug("fal"@),
{
    reveal_strlit("openrouter");
    reveal_strlit("fal");
}

/// A file is to be linked again if and only if it is gone, or lies where it cannot be reached; the
/// first comes before the second.
pub proof fn files_out_of_reach_are_asked_for(
    exists: bool,
    resolved: Seq<char>,
    roots: Seq<Seq<char>>,
)
    ensures
        !exists ==> crate::migration::relink_reason_of(exists, resolved, roots) == Some(
            RelinkReason::Missing,
        ),
        exists && !crate::paths::within_any(resolved, roots) ==> crate::migration::relink_reason_of(
            exists,
            resolved,
            roots,
        ) == Some(RelinkReason::OutsideSandbox),
        exists && crate::paths::within_any(resolved, roots) ==> crate::migration::relink_reason_of(
            exists,
            resolved,
            roots,
        ) is None,
        roots.len() == 0 ==> !crate::paths::within_any(resolved, roots),
{
}

/// Every file that is gone or out of reach is asked for, with its draft, its name and its place, and
/// no other is.
pub proof fn every_lost_file_is_asked_for(
    media: Seq<LocalMedia>,
    roots: Seq<Seq<char>>,
    wanted: RelinkView,
)
    ensures
        crate::migration::relinks(media, roots).contains(wanted) <==> exists|i: int|
            0 <= i < media.len() && asks_for(#[trigger] media[i], roots, wanted),
        crate::migration::relinks(media, roots).len() <= media.len(),
    decreases media.len(),
{
    if media.len() > 0 {
        let rest = media.drop_last();
        every_lost_file_is_asked_for(rest, roots, wanted);
        let before = crate::migration::relinks(rest, roots);
        let all = crate::migration::relinks(media, roots);
        let last = media.last();
        assert(media[media.len() - 1] == last);
        if before.contains(wanted) {
            let i = choose|i: int|
                0 <= i < rest.len() && asks_for(#[trigger] rest[i], roots, wanted);
            assert(media[i] == rest[i]);
        }
        if exists|i: int| 0 <= i < media.len() && asks_for(#[trigger] media[i], roots, wanted) {
            let i = choose|i: int|
                0 <= i < media.len() && asks_for(#[trigger] media[i], roots, wanted);
            if i < rest.len() {
                assert(rest[i] == media[i]);
            }
        }
        if crate::migration::relink_reason_of(last.exists, last.resolved@, roots) is Some {
            assert(all.drop_last() =~= before);
            assert(all[before.len() as int] == all.last());
            if before.contains(wanted) {
                assert(all[before.index_of(wanted)] == wanted);
            }
            if all.contains(wanted) && all.last() != wanted {
                assert(before[all.index_of(wanted)] == wanted);
            }
        }
    }
}

/// Whether a file is asked for in these words.
pub open spec fn asks_for(item: LocalMedia, roots: Seq<Seq<char>>, wanted: RelinkView) -> bool {
    &&& wanted.draft_id == item.draft_id@
    &&& wanted.media_id == item.media_id@
    &&& wanted.path == item.path@
    &&& if !item.exists {
        wanted.reason == RelinkReason::Missing
    } else {
        wanted.reason == RelinkReason::OutsideSandbox && !crate::paths::within_any(
            item.resolved@,
            roots,
        )
    }
}

/// A document is taken if and only if it can be read, and, where it holds settings, is an object
/// without credentials and of the supported version.
pub proof fn sound_documents_are_taken(
    value: JsonView,
    message: Seq<char>,
    settings: bool,
    version: u32,
    supported: u32,
)
    ensures
        crate::migration::document_fault(Err(message), settings, None, supported) == Some(
            AssetFault::Invalid(message),
        ),
        settings && crate::migration::holds_credential(value) ==> crate::migration::document_fault(
            Ok(value),
            settings,
            None,
            supported,
        ) == Some(AssetFault::Credential),
        settings && !(value is Object) && !crate::migration::holds_credential(value)
            ==> crate::migration::document_fault(Ok(value), settings, None, supported) == Some(
            AssetFault::Shape,
        ),
        settings && value is Object && !crate::migration::holds_credential(value)
            ==> crate::migration::document_fault(Ok(value), settings, None, supported) is None,
        !settings ==> crate::migration::document_fault(Ok(value), settings, None, supported)
            is None,
        settings && value is Object && !crate::migration::holds_credential(value) && version
            == supported ==> crate::migration::document_fault(
            Ok(value),
            settings,
            Some(Ok(version)),
            supported,
        ) is None,
        settings && value is Object && !crate::migration::holds_credential(value) && version
            != supported ==> crate::migration::document_fault(
            Ok(value),
            settings,
            Some(Ok(version)),
            supported,
        ) == Some(AssetFault::Version(version)),
{
}

/// The places of the new installation are refused where one of the old ones lies inside or around
/// one of them, and only there.
pub proof fn overlapping_places_are_refused(sources: Seq<Seq<char>>, targets: Seq<Seq<char>>)
    ensures
        crate::migration::first_overlap(sources, targets) is None <==> forall|i: int, j: int|
            0 <= i < sources.len() && 0 <= j < targets.len() ==> !crate::paths::overlap(
                #[trigger] sources[i],
                #[trigger] targets[j],
            ),
        crate::migration::first_overlap(sources, targets) matches Some(path) ==> sources.contains(
            path,
        ),
    decreases sources.len(),
{
    if sources.len() > 0 {
        let rest = sources.skip(1);
        overlapping_places_are_refused(rest, targets);
        assert(sources[0] == sources[0]);
        if let Some(path) = crate::migration::first_overlap(rest, targets) {
            assert(sources[rest.index_of(path) + 1] == path);
        }
        if crate::migration::first_overlap(sources, targets) is None {
            assert forall|i: int, j: int| 0 <= i < sources.len() && 0 <= j
                < targets.len() implies !crate::paths::overlap(
                #[trigger] sources[i],
                #[trigger] targets[j],
            ) by {
                if i > 0 {
                    assert(rest[i - 1] == sources[i]);
                }
            }
        }
        if forall|i: int, j: int|
            0 <= i < sources.len() && 0 <= j < targets.len() ==> !crate::paths::overlap(
                #[trigger] sources[i],
                #[trigger] targets[j],
            ) {
            assert forall|i: int, j: int| 0 <= i < rest.len() && 0 <= j
                < targets.len() implies !crate::paths::overlap(
                #[trigger] rest[i],
                #[trigger] targets[j],
            ) by {
                assert(rest[i] == sources[i + 1]);
            }
        }
    }
}

/// The target is free if and only if none of its directories is blocked or holds something.
pub proof fn targets_must_be_free(directories: Seq<Seq<char>>, looks: Seq<TargetLook>)
    ensures
        crate::migration::first_in_the_way(directories, looks) is None <==> forall|i: int|
            0 <= i < looks.len() ==> !((#[trigger] looks[i]) is Obstacle) && !(looks[i] is Holds),
    decreases looks.len(),
{
    if looks.len() > 0 {
        let rest = looks.skip(1);
        targets_must_be_free(directories.skip(1), rest);
        assert(looks[0] == looks[0]);
        if forall|i: int|
            0 <= i < looks.len() ==> !((#[trigger] looks[i]) is Obstacle) && !(looks[i] is Holds) {
            assert forall|i: int| 0 <= i < rest.len() implies !((#[trigger] rest[i]) is Obstacle)
                && !(rest[i] is Holds) by {
                assert(rest[i] == looks[i + 1]);
            }
        }
        if crate::migration::first_in_the_way(directories, looks) is None {
            assert forall|i: int| 0 <= i < looks.len() implies !((#[trigger] looks[i])
                is Obstacle) && !(looks[i] is Holds) by {
                if i > 0 {
                    assert(rest[i - 1] == looks[i]);
                }
            }
        }
    }
}

/// The names of credentials in older settings.
pub proof fn older_credentials_have_their_names(key: Seq<char>)
    ensures
        ({
            let letters = crate::migration::key_letters(key);
            &&& letters == "apikey"@ || letters == "accesstoken"@ || letters == "refreshtoken"@
                || letters == "authorization"@ || letters == "bearertoken"@ || letters == "secret"@
                || letters == "password"@ || letters == "privatekey"@
                <==> crate::migration::credential_key(key)
        }),
{
}

proof fn placed_assets(list: Seq<crate::migration::AssetView>, asset: crate::migration::AssetView)
    ensures
        crate::migration::asset_placed(list, asset).to_multiset() =~= list.to_multiset().insert(
            asset,
        ),
    decreases list.len(),
{
    broadcast use vstd::seq_lib::group_to_multiset_ensures;

    if list.len() == 0 || crate::paths::path_before(asset.relative, list[0].relative) {
        vstd::seq_lib::lemma_multiset_commutative(seq![asset], list);
        assert(seq![asset] =~= Seq::empty().push(asset));
    } else {
        let rest = list.skip(1);
        placed_assets(rest, asset);
        let tail = crate::migration::asset_placed(rest, asset);
        vstd::seq_lib::lemma_multiset_commutative(seq![list[0]], tail);
        vstd::seq_lib::lemma_multiset_commutative(seq![list[0]], rest);
        assert(list =~= seq![list[0]] + rest);
    }
}

proof fn ordered_assets(list: Seq<crate::migration::AssetView>)
    ensures
        crate::migration::assets_in_order(list).to_multiset() =~= list.to_multiset(),
    decreases list.len(),
{
    broadcast use vstd::seq_lib::group_to_multiset_ensures;

    if list.len() > 0 {
        ordered_assets(list.drop_last());
        placed_assets(crate::migration::assets_in_order(list.drop_last()), list.last());
        assert(list =~= list.drop_last().push(list.last()));
    }
}

/// Ordering the documents of an older installation keeps each of them, and adds none.
pub proof fn ordering_keeps_every_document(list: Seq<crate::migration::AssetView>)
    ensures
        crate::migration::assets_in_order(list).to_multiset() =~= list.to_multiset(),
{
    ordered_assets(list);
}

/// Links and other things that are no plain files stop an import; where only the older installation's
/// own documents are there, just those are taken.
pub proof fn only_plain_documents_are_collected(
    root: Seq<char>,
    found: crate::migration::Findings,
)
    ensures
        found.root_file is Symlink || found.root_file is Directory || found.root_file is Other ==> (
        crate::migration::collected_assets(root, crate::migration::AssetClass::Config, found)
            is Err && crate::migration::collected_assets(
            root,
            crate::migration::AssetClass::Cache,
            found,
        ) is Err),
        found.providers is Symlink || found.providers is File ==> (
        crate::migration::collected_assets(root, crate::migration::AssetClass::Config, found)
            is Err && crate::migration::collected_assets(
            root,
            crate::migration::AssetClass::Cache,
            found,
        ) is Err),
        found.app_settings is Symlink ==> crate::migration::collected_assets(
            root,
            crate::migration::AssetClass::Config,
            found,
        ) is Err,
        found.providers is Absent && found.root_file is File && found.app_settings is File ==> (
        crate::migration::collected_assets(root, crate::migration::AssetClass::Config, found)
            matches Ok(list) && list.len() == 2 && list[0].relative == "model-settings.json"@
            && !list[0].app_settings && list[1].relative == "app-settings.json"@
            && list[1].app_settings && list[0].source == crate::paths::joined(
            root,
            "model-settings.json"@,
        ) && list[1].source == crate::paths::joined(root, "app-settings.json"@)),
        found.providers is Absent && found.root_file is File ==> (
        crate::migration::collected_assets(root, crate::migration::AssetClass::Cache, found)
            matches Ok(list) && list.len() == 1 && list[0].relative == "video-models.json"@
            && !list[0].app_settings && list[0].source == crate::paths::joined(
            root,
            "video-models.json"@,
        )),
        found.providers is Absent && found.root_file is Absent && found.app_settings is Absent ==> (
        crate::migration::collected_assets(root, crate::migration::AssetClass::Config, found)
            matches Ok(list) && list.len() == 0),
{
}

proof fn placed_relinks(list: Seq<RelinkView>, item: RelinkView)
    ensures
        crate::migration::relink_placed(list, item).to_multiset() =~= list.to_multiset().insert(
            item,
        ),
    decreases list.len(),
{
    broadcast use vstd::seq_lib::group_to_multiset_ensures;

    if list.len() == 0 || crate::migration::relink_before(item, list[0]) {
        vstd::seq_lib::lemma_multiset_commutative(seq![item], list);
        assert(seq![item] =~= Seq::empty().push(item));
    } else {
        let rest = list.skip(1);
        placed_relinks(rest, item);
        let tail = crate::migration::relink_placed(rest, item);
        vstd::seq_lib::lemma_multiset_commutative(seq![list[0]], tail);
        vstd::seq_lib::lemma_multiset_commutative(seq![list[0]], rest);
        assert(list =~= seq![list[0]] + rest);
    }
}

/// Ordering the files that are asked for keeps each of them, and adds none.
pub proof fn ordering_keeps_every_relink(list: Seq<RelinkView>)
    ensures
        crate::migration::relinks_in_order(list).to_multiset() =~= list.to_multiset(),
    decreases list.len(),
{
    broadcast use vstd::seq_lib::group_to_multiset_ensures;

    if list.len() > 0 {
        ordering_keeps_every_relink(list.drop_last());
        placed_relinks(crate::migration::relinks_in_order(list.drop_last()), list.last());
        assert(list =~= list.drop_last().push(list.last()));
    }
}

/// An older installation is offered or taken over once only, only where nothing is in the way and
/// there is something to take over, and a clean start takes over nothing.
pub proof fn imports_follow_the_answers(
    purpose: crate::migration::Purpose,
    phase: crate::migration::Phase,
    answer: crate::migration::Answer,
)
    ensures
        answer matches crate::migration::Answer::Marker(Some(marker))
            ==> crate::migration::after_answer(purpose, phase, answer)
            == crate::migration::MigrationStep::Done(
            crate::migration::LegacyMigrationOutcome::AlreadyDecided(marker),
        ),
        answer matches crate::migration::Answer::Target(Some(path))
            ==> crate::migration::after_answer(purpose, phase, answer)
            == crate::migration::MigrationStep::Done(
            crate::migration::LegacyMigrationOutcome::Skipped(
                crate::migration::LegacyMigrationSkipReason::TargetContainsData(path),
            ),
        ),
        answer matches crate::migration::Answer::Inventory(inventory) ==> (inventory.nothing()
            ==> crate::migration::after_answer(purpose, phase, answer)
            == crate::migration::MigrationStep::Done(
            crate::migration::LegacyMigrationOutcome::Skipped(
                crate::migration::LegacyMigrationSkipReason::NoLegacyData,
            ),
        )),
        answer matches crate::migration::Answer::Inventory(inventory) ==> (!inventory.nothing()
            && purpose is Assess ==> crate::migration::after_answer(purpose, phase, answer)
            == crate::migration::MigrationStep::Offer(inventory)),
        purpose is Assess && !(phase is TargetAgain) ==> !(crate::migration::after_answer(
            purpose,
            phase,
            answer,
        ) is Import) && !(crate::migration::after_answer(purpose, phase, answer) is Decline),
        purpose == crate::migration::Purpose::Run(
            crate::migration::LegacyMigrationConsent::StartClean,
        ) && phase is Target && answer == crate::migration::Answer::Target(None)
            ==> crate::migration::after_answer(purpose, phase, answer) is Decline,
{
}

/// An import that met no fault has succeeded, and no other has; a fault of what was put in place is
/// told with what could be taken back.
pub proof fn faults_are_told(
    r: Result<(), crate::migration::LegacyMigrationError>,
    fault: Option<crate::migration::CommitFault>,
    complaints: Seq<Seq<char>>,
)
    requires
        crate::migration::ends(r, fault, complaints),
    ensures
        r is Ok <==> fault is None,
        fault matches Some(crate::migration::CommitFault::Reservation(error)) ==> (complaints.len()
            == 0 ==> r == Err::<(), crate::migration::LegacyMigrationError>(error)),
        fault matches Some(crate::migration::CommitFault::Publication(what)) ==> (r matches Err(
            crate::migration::LegacyMigrationError::Commit { commit, rollback },
        ) && commit@ == what@ && (complaints.len() == 0 ==> rollback@ == "completed"@)),
{
}

/// A provider's document is taken from its own directory, and only where that is a directory of such
/// a name; what is there instead of a plain document stops the import.
pub proof fn provider_documents_are_collected(
    root: Seq<char>,
    entries: Seq<crate::migration::ProviderEntry>,
    last: crate::migration::ProviderEntry,
)
    requires
        crate::migration::provider_assets(
            root,
            crate::migration::AssetClass::Config,
            entries,
        ) is Ok,
    ensures
        ({
            let before = crate::migration::provider_assets(
                root,
                crate::migration::AssetClass::Config,
                entries,
            );
            let after = crate::migration::provider_assets(
                root,
                crate::migration::AssetClass::Config,
                entries.push(last),
            );
            &&& last.name is None ==> after == before
            &&& !(last.kind is Directory) ==> after == before
            &&& last.file is Absent ==> after == before
            &&& last.name matches Some(name) ==> (!crate::migration::provider_slug(name@) ==> after
                == before)
            &&& last.name matches Some(name) ==> (crate::migration::provider_slug(name@)
                && last.kind is Directory && last.file is File ==> after is Ok && after->Ok_0.len()
                == before->Ok_0.len() + 1 && after->Ok_0.last().source == crate::paths::joined(
                crate::paths::joined(crate::paths::joined(root, "providers"@), name@),
                "model-settings.json"@,
            ) && after->Ok_0.last().relative == crate::paths::joined(
                crate::paths::joined("providers"@, name@),
                "model-settings.json"@,
            ) && !after->Ok_0.last().app_settings)
            &&& last.name matches Some(name) ==> (crate::migration::provider_slug(name@)
                && last.kind is Directory && last.file is Symlink ==> after is Err)
        }),
{
    assert(entries.push(last).drop_last() =~= entries);
}

} // verus!
