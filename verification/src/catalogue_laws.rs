//! What the catalogue's clock, its writer lease, its files, its doctor and its removal
//! promise.
use vstd::prelude::*;

use crate::catalogue;
use crate::catalogue::{DateView, LeaseDecision, LeaseView};
use crate::catalogue_route;
use crate::catalogue_route::{KnownRoute, LocatorView};
use crate::doctor;
use crate::doctor::{ConfigurationFinding, DoctorFacts, DoctorOutput, GenerationRowView};
use crate::text;
use crate::unregister;
use crate::unregister::{UnregisterFacts, UnregisterPathKind, WorkspaceState};

verus! {

/// Days are counted from the first of January 1970: each next day of a month, first day
/// of a next month and first day of a next year is one day later.
pub proof fn law_days_follow_each_other(date: DateView)
    requires
        date.exists_in_calendar(),
    ensures
        (DateView { year: 1970, month: 1, day: 1 }).unix_day() == 0,
        (DateView { day: date.day + 1, ..date }).exists_in_calendar() ==> (DateView {
            day: date.day + 1,
            ..date
        }).unix_day() == date.unix_day() + 1,
        !(DateView { day: date.day + 1, ..date }).exists_in_calendar() && date.month < 12 ==> (
        DateView { month: date.month + 1, day: 1, ..date }).unix_day() == date.unix_day() + 1,
        !(DateView { day: date.day + 1, ..date }).exists_in_calendar() && date.month == 12 ==> (
        DateView { year: date.year + 1, month: 1, day: 1 }).unix_day() == date.unix_day() + 1,
{
    assert(catalogue::days_before_month(1970, 1) == 0);
    if date.month < 12 {
        assert(catalogue::days_before_month(date.year, date.month + 1)
            == catalogue::days_before_month(date.year, date.month) + catalogue::month_days(
            date.year,
            date.month,
        ));
    } else {
        catalogue::lemma_months_fill_the_year(date.year);
        catalogue::lemma_next_year(date.year);
        assert(catalogue::days_before_month(date.year, 13) == catalogue::days_before_month(
            date.year,
            12,
        ) + catalogue::month_days(date.year, 12));
        assert(catalogue::days_before_month(date.year + 1, 1) == 0);
    }
}

/// The months have their lengths; February has 29 days every fourth year, but in a full
/// century only where its number divides by four hundred.
pub proof fn law_months_have_their_lengths(year: int, day: int)
    ensures
        forall|month: int|
            #![trigger (DateView { year, month, day }).exists_in_calendar()]
            (DateView { year, month, day }).exists_in_calendar() ==> 1 <= month <= 12 && 1 <= day
                <= 31,
        (DateView { year, month: 1, day: 31 }).exists_in_calendar(),
        (DateView { year, month: 3, day: 31 }).exists_in_calendar(),
        (DateView { year, month: 4, day: 30 }).exists_in_calendar(),
        (DateView { year, month: 5, day: 31 }).exists_in_calendar(),
        (DateView { year, month: 6, day: 30 }).exists_in_calendar(),
        (DateView { year, month: 7, day: 31 }).exists_in_calendar(),
        (DateView { year, month: 8, day: 31 }).exists_in_calendar(),
        (DateView { year, month: 9, day: 30 }).exists_in_calendar(),
        (DateView { year, month: 10, day: 31 }).exists_in_calendar(),
        (DateView { year, month: 11, day: 30 }).exists_in_calendar(),
        (DateView { year, month: 12, day: 31 }).exists_in_calendar(),
        !(DateView { year, month: 4, day: 31 }).exists_in_calendar(),
        !(DateView { year, month: 6, day: 31 }).exists_in_calendar(),
        !(DateView { year, month: 9, day: 31 }).exists_in_calendar(),
        !(DateView { year, month: 11, day: 31 }).exists_in_calendar(),
        (DateView { year, month: 2, day: 28 }).exists_in_calendar(),
        !(DateView { year, month: 2, day: 30 }).exists_in_calendar(),
        year % 4 != 0 ==> !(DateView { year, month: 2, day: 29 }).exists_in_calendar(),
        year % 4 == 0 && year % 100 != 0 ==> (DateView {
            year,
            month: 2,
            day: 29,
        }).exists_in_calendar(),
        year % 100 == 0 && year % 400 != 0 ==> !(DateView {
            year,
            month: 2,
            day: 29,
        }).exists_in_calendar(),
        year % 400 == 0 ==> (DateView { year, month: 2, day: 29 }).exists_in_calendar(),
{
}

/// A moment of a day is written as its hour, minute, second and millisecond.
pub proof fn law_timestamps_show_the_time(date: DateView, h: int, m: int, s: int, ms: int)
    requires
        0 <= h < 24,
        0 <= m < 60,
        0 <= s < 60,
        0 <= ms < 1000,
    ensures
        catalogue::timestamp_text(date, ((h * 60 + m) * 60 + s) * 1000 + ms) == catalogue::padded(
            date.year as nat,
            4,
        ) + "-"@ + catalogue::padded(date.month as nat, 2) + "-"@ + catalogue::padded(
            date.day as nat,
            2,
        ) + "T"@ + catalogue::padded(h as nat, 2) + ":"@ + catalogue::padded(m as nat, 2) + ":"@
            + catalogue::padded(s as nat, 2) + "."@ + catalogue::padded(ms as nat, 3) + "Z"@,
{
    let seconds = (h * 60 + m) * 60 + s;
    let total = seconds * 1000 + ms;
    assert(total / 1000 == seconds && total % 1000 == ms);
    assert(seconds == h * 3600 + (m * 60 + s));
    assert(seconds / 3600 == h && seconds % 3600 == m * 60 + s);
    assert((m * 60 + s) / 60 == m && seconds % 60 == s);
}

/// A numeral of a width holds at least so many characters, ends in the number's digits
/// and begins with nothing but zeros.
pub proof fn law_padding_is_zeros(n: nat, width: nat)
    ensures
        catalogue::padded(n, width).len() >= width,
        catalogue::padded(n, width).len() >= text::decimal(n).len(),
        catalogue::padded(n, width).len() > width ==> catalogue::padded(n, width)
            == text::decimal(n),
        catalogue::padded(n, width).skip(
            catalogue::padded(n, width).len() - text::decimal(n).len(),
        ) == text::decimal(n),
        forall|i: int|
            0 <= i < catalogue::padded(n, width).len() - text::decimal(n).len() ==> (
            #[trigger] catalogue::padded(n, width)[i]) == '0',
{
    let p = catalogue::padded(n, width);
    assert(p.skip(p.len() - text::decimal(n).len()) =~= text::decimal(n));
}

/// A heartbeat is stale once it is older than the limit, and not before; one from the
/// present or the future never is. A limit that no age can exceed stands for a minute.
pub proof fn law_heartbeats_grow_stale(
    heartbeat: Seq<char>,
    since: (int, int),
    now: (int, int),
    age: (int, int),
    limit: std::time::Duration,
)
    requires
        catalogue::rfc3339_reading(heartbeat) == Ok::<(int, int), Seq<char>>(since),
        catalogue::utc_age(now, since) == Some(age),
    ensures
        catalogue::stale_at(heartbeat, now, limit) is Ok,
        age.0 * 1_000_000_000 + age.1 <= 0 ==> !catalogue::stale_at(heartbeat, now, limit)->Ok_0,
        catalogue::whole_nanos(limit) <= 9_223_372_036_854_775_807_000_000 ==> (
        catalogue::stale_at(heartbeat, now, limit)->Ok_0 <==> catalogue::whole_nanos(limit) < age.0
            * 1_000_000_000 + age.1),
        catalogue::whole_nanos(limit) > 9_223_372_036_854_775_807_000_000 ==> (
        catalogue::stale_at(heartbeat, now, limit)->Ok_0 <==> 60_000_000_000 < age.0 * 1_000_000_000
            + age.1),
{
}

/// A lease is refused exactly where someone else holds it and its heartbeat is not known
/// to be stale; the refusal names the holder.
pub proof fn law_leases_are_refused_to_others_only(
    stored: Option<LeaseView>,
    asking: Seq<char>,
    now: (int, int),
    limit: std::time::Duration,
)
    ensures
        catalogue::lease_decision(stored, asking, now, limit) is Granted <==> (stored matches Some(
            row,
        ) ==> row.holder_id == asking || catalogue::stale_at(row.heartbeat_at, now, limit) == Ok::<
            bool,
            Seq<char>,
        >(true)),
        catalogue::lease_decision(stored, asking, now, limit) matches LeaseDecision::Held { holder }
            ==> stored is Some && holder == stored->0.holder_id && holder != asking
            && catalogue::stale_at(stored->0.heartbeat_at, now, limit) == Ok::<bool, Seq<char>>(
            false,
        ),
        catalogue::lease_decision(stored, asking, now, limit) is Unreadable <==> stored is Some
            && stored->0.holder_id != asking && (catalogue::rfc3339_reading(
            stored->0.heartbeat_at,
        ) is Err || catalogue::utc_age(
            now,
            catalogue::rfc3339_reading(stored->0.heartbeat_at)->Ok_0,
        ) is None),
{
}

/// A lease that was granted names its holder, and starts with a fresh heartbeat.
pub proof fn law_granted_leases_are_fresh(
    holder: Seq<char>,
    now: Seq<char>,
    expires: Seq<char>,
)
    ensures
        catalogue::granted_lease(holder, now, expires).holder_id == holder,
        catalogue::granted_lease(holder, now, expires).acquired_at == now,
        catalogue::granted_lease(holder, now, expires).heartbeat_at == now,
        catalogue::granted_lease(holder, now, expires).expires_at == expires,
{
}

/// A generation is stuck exactly if it is still a candidate; the others are not listed,
/// and each that is stuck is listed once.
pub proof fn law_stuck_generations_are_candidates(
    before: Seq<GenerationRowView>,
    row: GenerationRowView,
    behind: Seq<GenerationRowView>,
)
    ensures
        row.state == "candidate"@ ==> doctor::candidates(before + seq![row] + behind)
            == doctor::candidates(before) + seq![row.generation_id] + doctor::candidates(behind),
        row.state != "candidate"@ ==> doctor::candidates(before + seq![row] + behind)
            == doctor::candidates(before) + doctor::candidates(behind),
        doctor::candidates(Seq::empty()) == Seq::<Seq<char>>::empty(),
    decreases behind.len(),
{
    let all = before + seq![row] + behind;
    if behind.len() == 0 {
        assert(all.drop_last() =~= before);
        assert(all.last() == row);
        assert(doctor::candidates(behind) =~= Seq::<Seq<char>>::empty());
        if row.state == "candidate"@ {
            assert(doctor::candidates(all) =~= doctor::candidates(before) + seq![row.generation_id]
                + doctor::candidates(behind));
        } else {
            assert(doctor::candidates(all) =~= doctor::candidates(before) + doctor::candidates(
                behind,
            ));
        }
    } else {
        let rest = behind.drop_last();
        law_stuck_generations_are_candidates(before, row, rest);
        assert(all.drop_last() =~= before + seq![row] + rest);
        assert(all.last() == behind.last());
        if row.state == "candidate"@ {
            assert(doctor::candidates(all) =~= doctor::candidates(before) + seq![row.generation_id]
                + doctor::candidates(behind));
        } else {
            assert(doctor::candidates(all) =~= doctor::candidates(before) + doctor::candidates(
                behind,
            ));
        }
    }
}

/// A report is good exactly if the workspace is registered, its configuration was read
/// and is the registered one, it has an active generation, and neither the database nor
/// a migration is damaged; and it says each of these as it is.
pub proof fn law_reports_say_what_is_the_case(out: DoctorOutput, facts: DoctorFacts)
    requires
        doctor::report_on(out, facts),
    ensures
        out.ok <==> {
            &&& facts.workspace is Some
            &&& facts.workspace->0.active_generation_id is Some
            &&& (facts.workspace->0.configuration matches ConfigurationFinding::Found { hash }
                && hash@ == facts.workspace->0.configuration_hash@)
            &&& facts.integrity_ok
            &&& facts.migration_checksum_mismatches@.len() == 0
        },
        out.workspace_registered <==> facts.workspace is Some,
        out.active_generation_present <==> facts.workspace is Some
            && facts.workspace->0.active_generation_id is Some,
        out.integrity_ok == facts.integrity_ok,
        out.foreign_keys_on <==> facts.foreign_keys == 1,
        facts.workspace matches Some(ws) ==> (out.writer_lease_present <==> ws.lease_holder is Some),
        facts.workspace is None ==> !out.ok && !out.writer_lease_present && out.workspace_id is None,
        out.stale_provider_executions == facts.stale_provider_executions,
        out.stale_serving_generations == facts.stale_serving_generations,
{
}

/// The count of a state is the one its row gives, and nothing where no row names it.
pub proof fn law_counts_are_those_of_the_rows(rows: Seq<(String, i64)>, at: int, state: Seq<char>)
    requires
        forall|i: int, j: int|
            0 <= i < j < rows.len() ==> (#[trigger] rows[i]).0@ != (#[trigger] rows[j]).0@,
    ensures
        0 <= at < rows.len() && rows[at].0@ == state ==> doctor::count_of(rows, state)
            == rows[at].1,
        (forall|i: int| 0 <= i < rows.len() ==> (#[trigger] rows[i]).0@ != state)
            ==> doctor::count_of(rows, state) == 0,
    decreases rows.len(),
{
    if rows.len() > 0 {
        let rest = rows.drop_last();
        assert forall|i: int, j: int| 0 <= i < j < rest.len() implies (#[trigger] rest[i]).0@ != (
        #[trigger] rest[j]).0@ by {
            assert(rows[i].0@ != rows[j].0@);
        }
        law_counts_are_those_of_the_rows(rest, at, state);
        if at < rest.len() && 0 <= at && rows[at].0@ == state {
            assert(rest[at] == rows[at]);
            assert(rows[at].0@ != rows[rows.len() - 1].0@);
        }
        if forall|i: int| 0 <= i < rows.len() ==> (#[trigger] rows[i]).0@ != state {
            assert(rows[rows.len() - 1].0@ != state);
            assert forall|i: int| 0 <= i < rest.len() implies (#[trigger] rest[i]).0@ != state by {
                assert(rows[i].0@ != state);
            }
        }
    }
}

/// A root holds itself and whatever stands below it, through any number of levels; a
/// path that only begins with the same letters is not held.
pub proof fn law_roots_hold_what_is_below(root: Seq<char>, rest: Seq<char>, c: char)
    ensures
        unregister::lies_within(root, root),
        unregister::lies_within(root + seq!['/'] + rest, root),
        root != "/"@ && c != '/' ==> !unregister::lies_within(root + seq![c] + rest, root),
        unregister::lies_within(rest, "/"@),
{
    let below = root + seq!['/'] + rest;
    assert(below.take(root.len() as int) =~= root);
    assert(below[root.len() as int] == '/');
    let beside = root + seq![c] + rest;
    assert(beside[root.len() as int] == c);
    assert(beside.len() > root.len());
}

/// Whatever lies below what lies below a root lies below the root; and a root shorter
/// than its contents holds only what begins with it.
pub proof fn law_lying_within_is_transitive(a: Seq<char>, b: Seq<char>, c: Seq<char>)
    requires
        unregister::lies_within(a, b),
        unregister::lies_within(b, c),
        b != "/"@,
    ensures
        unregister::lies_within(a, c),
        c != "/"@ ==> a.len() >= c.len() && a.take(c.len() as int) == c,
{
    if c != "/"@ {
        if a == b {
            if b == c {
                assert(a.take(c.len() as int) =~= c);
            }
        } else {
            assert(a.take(b.len() as int) == b);
            if b == c {
            } else {
                assert(a.take(c.len() as int) =~= b.take(c.len() as int)) by {
                    assert forall|i: int| 0 <= i < c.len() implies a.take(c.len() as int)[i]
                        == b.take(c.len() as int)[i] by {
                        assert(a.take(b.len() as int)[i] == b[i]);
                    }
                }
                assert(a.take(b.len() as int)[c.len() as int] == b[c.len() as int]);
            }
        }
    }
}

/// A removal goes on to take fingerprints exactly where everything was found as it was
/// registered: the root, the catalogue, the workspace's record and the locator.
pub proof fn law_removal_needs_everything_in_place(
    facts: UnregisterFacts,
    workspace_id: Seq<char>,
    recorded: WorkspaceState,
)
    ensures
        facts.next(workspace_id, recorded) is Fingerprint <==> {
            &&& facts.root is Some
            &&& facts.root->0.is_dir
            &&& facts.root->0.same_as_registered
            &&& facts.catalogue_resolved
            &&& facts.opened_same_catalogue == Some(true)
            &&& facts.current is Some
            &&& facts.current->0 is Some
            &&& facts.current->0->0.canonical_root@ == recorded.canonical_root@
            &&& facts.current->0->0.configuration_hash@ == recorded.configuration_hash@
            &&& text::opt_text(facts.current->0->0.active_generation_id) == text::opt_text(
                recorded.active_generation_id,
            )
            &&& facts.locator is Some
            &&& facts.locator->0.schema_version == 1
            &&& facts.locator->0.workspace_id@ == workspace_id
            &&& facts.locator->0.same_root
            &&& facts.locator->0.same_catalogue
        },
        facts.next(workspace_id, recorded) is NotFound ==> facts.current == Some(
            None::<WorkspaceState>,
        ),
{
}

/// A removal asks only for what is not known yet, and refuses only on what is known to
/// be wrong.
pub proof fn law_removal_asks_for_what_is_unknown(
    facts: UnregisterFacts,
    workspace_id: Seq<char>,
    recorded: WorkspaceState,
)
    ensures
        facts.next(workspace_id, recorded) is ResolveRoot <==> facts.root is None,
        facts.next(workspace_id, recorded) is ResolveCatalogue ==> !facts.catalogue_resolved,
        facts.next(workspace_id, recorded) is ResolveOpened
            ==> facts.opened_same_catalogue is None,
        facts.next(workspace_id, recorded) is LoadWorkspace ==> facts.current is None,
        facts.next(workspace_id, recorded) is ReadLocator ==> facts.locator is None,
        facts.next(workspace_id, recorded) is Refused ==> {
            ||| facts.root is Some && !(facts.root->0.is_dir && facts.root->0.same_as_registered)
            ||| facts.opened_same_catalogue == Some(false)
            ||| facts.current is Some && facts.current->0 is Some && !(
            facts.current->0->0.canonical_root@ == recorded.canonical_root@
                && facts.current->0->0.configuration_hash@ == recorded.configuration_hash@
                && text::opt_text(facts.current->0->0.active_generation_id) == text::opt_text(
                recorded.active_generation_id,
            ))
            ||| facts.locator is Some && !(facts.locator->0.schema_version == 1
                && facts.locator->0.workspace_id@ == workspace_id && facts.locator->0.same_root
                && facts.locator->0.same_catalogue)
        },
{
}

/// The manifest lists the catalogue first, then its sidecars, the configuration, the
/// locator and the temporary files; among files of a kind, a directory comes before
/// what is in it, and that before what only begins with its name.
pub proof fn law_manifests_have_an_order(
    a: Seq<char>,
    b: Seq<char>,
    kind: UnregisterPathKind,
    c: char,
)
    requires
        c != '/',
        c != '\u{0}',
    ensures
        unregister::manifest_ahead(
            UnregisterPathKind::Catalogue,
            a,
            UnregisterPathKind::CatalogueWal,
            b,
        ),
        unregister::manifest_ahead(
            UnregisterPathKind::CatalogueWal,
            a,
            UnregisterPathKind::CatalogueShm,
            b,
        ),
        unregister::manifest_ahead(
            UnregisterPathKind::CatalogueShm,
            a,
            UnregisterPathKind::RegisteredConfig,
            b,
        ),
        unregister::manifest_ahead(
            UnregisterPathKind::RegisteredConfig,
            a,
            UnregisterPathKind::RootLocator,
            b,
        ),
        unregister::manifest_ahead(
            UnregisterPathKind::RootLocator,
            a,
            UnregisterPathKind::ProviderTemp,
            b,
        ),
        unregister::manifest_ahead(kind, a, kind, a + seq!['/'] + b),
        unregister::manifest_ahead(kind, a + seq!['/'] + b, kind, a + seq![c] + b),
        !unregister::manifest_ahead(kind, a, kind, a),
{
    let key = unregister::path_key(a);
    let below = unregister::path_key(a + seq!['/'] + b);
    let beside = unregister::path_key(a + seq![c] + b);
    let tail = unregister::path_key(b);
    text::lemma_text_lt_irreflexive(key);
    assert(below =~= key + (seq!['\u{0}'] + tail));
    text::law_beginnings_sort_first(key, seq!['\u{0}'] + tail);
    assert(below =~= key + seq!['\u{0}'] + tail);
    assert(beside =~= key + seq![c] + tail);
    vstd::utf8::char_u32_cast(c, c as u32);
    text::law_the_first_difference_decides(key, '\u{0}', c, tail, tail);
}

/// A file passes for a database exactly if it begins as one, has a page size that is a
/// power of two from 512 to 65536, one of the two formats for reading and writing alike,
/// the fixed payload fractions, room on its pages, a known schema format and encoding,
/// zeros where it keeps bytes free, and a length of whole pages.
pub proof fn law_database_files_have_their_shape(header: Seq<u8>, file_len: int)
    requires
        header.len() >= 100,
    ensures
        ({
            let field = header[16] as int * 256 + header[17] as int;
            let size = if field == 1 {
                65536
            } else {
                field
            };
            catalogue_route::header_fault(header, file_len) is None <==> {
                &&& header.take(16) == catalogue_route::header_magic()
                &&& (size == 512 || size == 1024 || size == 2048 || size == 4096 || size == 8192
                    || size == 16384 || size == 32768 || size == 65536)
                &&& header[18] == header[19]
                &&& (header[18] == 1 || header[18] == 2)
                &&& size - header[20] >= 480
                &&& header[21] == 64
                &&& header[22] == 32
                &&& header[23] == 32
                &&& header[44] == 0 && header[45] == 0 && header[46] == 0 && 1 <= header[47] <= 4
                &&& header[56] == 0 && header[57] == 0 && header[58] == 0 && 1 <= header[59] <= 3
                &&& (forall|i: int| 72 <= i < 92 ==> #[trigger] header[i] == 0)
                &&& file_len >= size
                &&& file_len % size == 0
            }
        }),
        catalogue_route::header_fault(header.take(99), file_len) is Some,
{
}

/// A root is registered under the route it has or, without one, under the expected one;
/// it is refused exactly if it has another route, or several catalogues hold it.
pub proof fn law_roots_are_registered_once(expected: LocatorView, known: KnownRoute)
    ensures
        known matches KnownRoute::Located { existing, places } ==> (catalogue_route::registered(
            expected,
            known,
        ) is Some <==> existing@.workspace_id == expected.workspace_id && existing@.schema_version
            == expected.schema_version && places.roots && places.catalogues),
        known matches KnownRoute::Discovered { matches, places } ==> {
            &&& matches@.len() == 0 ==> catalogue_route::registered(expected, known) == Some(
                expected,
            )
            &&& matches@.len() == 1 ==> (catalogue_route::registered(expected, known) is Some
                <==> matches@[0]@.workspace_id == expected.workspace_id
                && matches@[0]@.schema_version == expected.schema_version && places@[0].roots
                && places@[0].catalogues)
            &&& matches@.len() > 1 ==> catalogue_route::registered(expected, known) is None
        },
{
}

/// A name can be that of a catalogue without a locator exactly if it is anything between
/// its two fixed ends.
pub proof fn law_legacy_names_have_fixed_ends(middle: Seq<char>, name: Seq<char>)
    ensures
        catalogue_route::legacy_name("ws_"@ + middle + ".sqlite"@),
        catalogue_route::legacy_name(name) ==> name == "ws_"@ + name.subrange(3, name.len() - 7)
            + ".sqlite"@,
{
    reveal_strlit("ws_");
    reveal_strlit(".sqlite");
    let head = "ws_"@;
    let tail = ".sqlite"@;
    assert(head[0] == 'w' && head[1] == 's' && head[2] == '_' && tail[0] == '.');
    let whole = head + middle + tail;
    assert(whole.take(head.len() as int) =~= head);
    assert(whole.skip(whole.len() - tail.len()) =~= tail);
    if catalogue_route::legacy_name(name) {
        let front = name.take(3);
        let back = name.skip(name.len() - 7);
        assert(front == head && back == tail);
        assert(name[0] == front[0] && name[1] == front[1] && name[2] == front[2]);
        assert(name[name.len() - 7] == back[0]);
        assert(name =~= head + name.subrange(3, name.len() - 7) + tail) by {
            assert(name =~= front + name.subrange(3, name.len() - 7) + back);
        }
    }
}

} // verus!
