//! What a share carries, said of the graph that plays.
use vstd::prelude::*;

use crate::client::audio_apps;
use crate::client::audio_apps::{
    AudioAppErrorView, AudioApplicationView, DefaultAudioDecisionView, DumpOutputView,
    GraphObjectView, JsonLeaf, MissingExclusion, NoAudioReasonView, PlaybackStreamView,
};
use crate::seqs;
use crate::sorting;
use crate::text;

verus! {

/// Whether a name, whatever its case, stands somewhere in a text that may be
/// missing.
pub open spec fn stands_in(name: Seq<char>, field: Option<Seq<char>>) -> bool {
    field matches Some(value) && text::occurs(text::lowercase_of(name), text::lowercase_of(value))
}

/// Whether a name stands in the application's name, the binary or the node's name
/// of a stream.
pub open spec fn answers_to(stream: PlaybackStreamView, name: Seq<char>) -> bool {
    stands_in(name, stream.application_name) || stands_in(name, stream.binary) || stands_in(
        name,
        stream.node_name,
    )
}

/// A stream goes by a name exactly if the name, whatever its case, stands in its
/// application's name, in its binary or in its node's name.
pub proof fn law_streams_go_by_three_names(stream: PlaybackStreamView, name: Seq<char>)
    ensures
        audio_apps::goes_by(stream, name) <==> answers_to(stream, name),
{
    let terms = audio_apps::terms(stream);
    let first = audio_apps::at_most_one(stream.application_name);
    let second = audio_apps::at_most_one(stream.binary);
    if stream.application_name is Some {
        assert(terms[0] == stream.application_name->0);
    }
    if stream.binary is Some {
        assert(terms[first.len() as int] == stream.binary->0);
    }
    if stream.node_name is Some {
        assert(terms[(first.len() + second.len()) as int] == stream.node_name->0);
    }
    if audio_apps::goes_by(stream, name) {
        let i = choose|i: int|
            0 <= i < terms.len() && text::occurs(
                text::lowercase_of(name),
                text::lowercase_of(#[trigger] terms[i]),
            );
        assert(Some(terms[i]) == stream.application_name || Some(terms[i]) == stream.binary || Some(
            terms[i],
        ) == stream.node_name);
    }
}

/// In ASCII text the case of a letter does not matter either way.
pub proof fn law_ascii_names_are_found_in_three_places(
    stream: PlaybackStreamView,
    name: Seq<char>,
)
    ensures
        ({
            let small = text::ascii_lowered(name);
            let in_field = |field: Option<Seq<char>>|
                field matches Some(value) && text::occurs(small, text::ascii_lowered(value));
            audio_apps::goes_by_ascii(stream, name) <==> in_field(stream.application_name)
                || in_field(stream.binary) || in_field(stream.node_name)
        }),
        audio_apps::ascii_terms(stream) <==> (stream.application_name matches Some(value)
            ==> vstd::utf8::is_ascii_chars(value)) && (stream.binary matches Some(value)
            ==> vstd::utf8::is_ascii_chars(value)) && (stream.node_name matches Some(value)
            ==> vstd::utf8::is_ascii_chars(value)),
{
    let terms = audio_apps::terms(stream);
    let first = audio_apps::at_most_one(stream.application_name);
    let second = audio_apps::at_most_one(stream.binary);
    let small = text::ascii_lowered(name);
    if stream.application_name is Some {
        assert(terms[0] == stream.application_name->0);
    }
    if stream.binary is Some {
        assert(terms[first.len() as int] == stream.binary->0);
    }
    if stream.node_name is Some {
        assert(terms[(first.len() + second.len()) as int] == stream.node_name->0);
    }
    assert forall|i: int| 0 <= i < terms.len() implies Some(#[trigger] terms[i])
        == stream.application_name || Some(terms[i]) == stream.binary || Some(terms[i])
        == stream.node_name by {}
}

/// A stream goes by several names exactly if it goes by one of them.
pub proof fn law_one_of_several_names_is_enough(stream: PlaybackStreamView, names: Seq<Seq<char>>)
    ensures
        audio_apps::goes_by_any(stream, names) <==> exists|k: int|
            0 <= k < names.len() && answers_to(stream, #[trigger] names[k]),
{
    assert forall|k: int| 0 <= k < names.len() implies audio_apps::goes_by(
        stream,
        #[trigger] names[k],
    ) == answers_to(stream, names[k]) by {
        law_streams_go_by_three_names(stream, names[k]);
    }
}

/// The streams of a graph are exactly its nodes that put out audio and have a
/// serial, each with what the node says of itself, in the graph's order.
pub proof fn law_what_plays_is_found(objects: Seq<GraphObjectView>)
    ensures
        ({
            let streams = audio_apps::streams_in(objects);
            let playing = |object: GraphObjectView|
                object.kind == Some("PipeWire:Interface:Node"@) && object.media_class == Some(
                    "Stream/Output/Audio"@,
                ) && object.serial is Some;
            &&& streams.len() == objects.filter(playing).len()
            &&& forall|i: int|
                #![trigger streams[i]]
                0 <= i < streams.len() ==> ({
                    let object = objects.filter(playing)[i];
                    &&& object.serial == Some(streams[i].serial)
                    &&& streams[i].application_name == object.application_name
                    &&& streams[i].binary == object.binary
                    &&& streams[i].node_name == object.node_name
                })
        }),
{
    let playing = |object: GraphObjectView|
        object.kind == Some("PipeWire:Interface:Node"@) && object.media_class == Some(
            "Stream/Output/Audio"@,
        ) && object.serial is Some;
    assert(playing =~= |object: GraphObjectView| audio_apps::plays(object));
    seqs::lemma_filter_members(objects, playing);
    let kept = objects.filter(playing);
    assert forall|i: int| 0 <= i < kept.len() implies (#[trigger] kept[i]).serial is Some by {
        assert(playing(kept[i]));
    }
}

/// The objects of a graph are what stands at their places in the document.
pub proof fn law_objects_are_read_from_their_places(leaves: Map<Seq<char>, JsonLeaf>, i: nat)
    requires
        i < audio_apps::size_in(leaves, ""@),
    ensures
        ({
            let object = audio_apps::objects_in(leaves)[i as int];
            let at = |field: Seq<char>|
                audio_apps::text_in(leaves, "/"@ + text::decimal(i) + field);
            &&& audio_apps::objects_in(leaves).len() == audio_apps::size_in(leaves, ""@)
            &&& object.kind == at("/type"@)
            &&& object.media_class == at("/info/props/media.class"@)
            &&& object.application_name == at("/info/props/application.name"@)
            &&& object.binary == at("/info/props/application.process.binary"@)
            &&& object.node_name == at("/info/props/node.name"@)
            &&& object.serial == audio_apps::number_in(
                leaves,
                "/"@ + text::decimal(i) + "/info/props/object.serial"@,
            )
        }),
{
}

/// A place holds a text, a number or an array exactly where the document does.
pub proof fn law_leaves_are_what_the_document_holds(
    leaves: Map<Seq<char>, JsonLeaf>,
    pointer: Seq<char>,
    held: Seq<char>,
    n: u64,
    size: nat,
)
    requires
        size > 0,
    ensures
        audio_apps::text_in(leaves, pointer) == Some(held) <==> leaves.dom().contains(pointer)
            && leaves[pointer] == JsonLeaf::Text(held),
        audio_apps::number_in(leaves, pointer) == Some(n) <==> leaves.dom().contains(pointer)
            && leaves[pointer] == JsonLeaf::Number(n),
        audio_apps::size_in(leaves, pointer) == size <==> leaves.dom().contains(pointer)
            && leaves[pointer] == JsonLeaf::Array(size),
{
}

/// An application is called what it calls itself, or else what its node is
/// called, and is known by the serial and the binary of its stream.
pub proof fn law_applications_are_called_what_they_call_themselves(stream: PlaybackStreamView)
    ensures
        ({
            let app = audio_apps::application(stream);
            &&& app.serial == stream.serial
            &&& app.binary == stream.binary
            &&& stream.application_name matches Some(name) ==> app.label == name
            &&& stream.application_name is None && stream.node_name is Some ==> app.label
                == stream.node_name->0
            &&& stream.application_name is None && stream.node_name is None ==> app.label
                == "unnamed"@
        }),
{
}

/// An application is shown by its name, with its binary behind it unless the two
/// are the same but for case.
pub proof fn law_binaries_are_shown_where_they_add_something(app: AudioApplicationView)
    ensures
        app.binary is None ==> audio_apps::shown(app) == app.label,
        app.binary matches Some(binary) ==> audio_apps::shown(app) == if text::ascii_lowered(
            app.label,
        ) == text::ascii_lowered(binary) {
            app.label
        } else {
            app.label + " ("@ + binary + ")"@
        },
{
    if let Some(binary) = app.binary {
        crate::text_laws::law_case_is_ignored_letter_by_letter(app.label, binary, 'a');
    }
}

/// A name that something answers to resolves to the first that does, unless others
/// that are shown otherwise answer to it too. A name that nothing answers to is
/// not found, and what is refused is refused by that name.
pub proof fn law_names_resolve_to_what_answers(streams: Seq<PlaybackStreamView>, name: Seq<char>)
    ensures
        ({
            let r = audio_apps::resolved(streams, name);
            let nobody = forall|i: int|
                0 <= i < streams.len() ==> !answers_to(#[trigger] streams[i], name);
            &&& nobody <==> r == Err::<AudioApplicationView, AudioAppErrorView>(
                AudioAppErrorView::NotFound { name, available: audio_apps::available(streams) },
            )
            &&& r matches Ok(app) ==> exists|i: int|
                0 <= i < streams.len() && answers_to(#[trigger] streams[i], name) && app
                    == audio_apps::application(streams[i]) && forall|j: int|
                    0 <= j < i ==> !answers_to(#[trigger] streams[j], name)
            &&& forall|i: int|
                0 <= i < streams.len() && answers_to(#[trigger] streams[i], name) ==> match r {
                    Ok(app) => audio_apps::shown(app) == audio_apps::shown(
                        audio_apps::application(streams[i]),
                    ),
                    Err(AudioAppErrorView::Ambiguous { name: asked, matches }) => asked == name
                        && matches.contains(
                        audio_apps::shown(audio_apps::application(streams[i])),
                    ),
                    Err(_) => false,
                }
        }),
{
    let r = audio_apps::resolved(streams, name);
    let keep = audio_apps::named(name);
    let matches = streams.filter(keep);
    assert forall|i: int| 0 <= i < streams.len() implies keep(#[trigger] streams[i]) == answers_to(
        streams[i],
        name,
    ) by {
        law_streams_go_by_three_names(streams[i], name);
    }
    seqs::lemma_filter_members(streams, keep);
    let labels = audio_apps::shown_all(matches);
    lemma_deduped_keeps(labels);
    audio_apps::law_resolution_is_unambiguous(streams, name);
    assert forall|i: int| 0 <= i < streams.len() && answers_to(#[trigger] streams[i], name) implies matches.contains(
        streams[i],
    ) by {
        assert(streams.contains(streams[i]));
    }
    if matches.len() > 0 {
        lemma_filter_first(streams, keep);
        let first = choose|i: int|
            0 <= i < streams.len() && keep(#[trigger] streams[i]) && matches[0] == streams[i]
                && forall|j: int| 0 <= j < i ==> !keep(#[trigger] streams[j]);
        assert(answers_to(streams[first], name));
        assert forall|j: int| 0 <= j < first implies !answers_to(#[trigger] streams[j], name) by {
            assert(!keep(streams[j]));
        }
    }
    assert forall|i: int| 0 <= i < streams.len() && answers_to(#[trigger] streams[i], name) implies match r {
        Ok(app) => audio_apps::shown(app) == audio_apps::shown(
            audio_apps::application(streams[i]),
        ),
        Err(AudioAppErrorView::Ambiguous { name: asked, matches }) => asked == name
            && matches.contains(audio_apps::shown(audio_apps::application(streams[i]))),
        Err(_) => false,
    } by {
        let k = choose|k: int| 0 <= k < matches.len() && matches[k] == streams[i];
        assert(labels[k] == audio_apps::shown(audio_apps::application(streams[i])));
        assert(labels.contains(labels[k]));
        if r is Ok {
            assert(audio_apps::shown(audio_apps::application(matches[k])) == audio_apps::shown(
                audio_apps::application(matches[0]),
            ));
        }
    }
    if matches.len() > 0 {
        assert(keep(matches[0]));
    }
}

proof fn lemma_filter_first<A>(s: Seq<A>, keep: spec_fn(A) -> bool)
    requires
        s.filter(keep).len() > 0,
    ensures
        exists|i: int|
            0 <= i < s.len() && keep(#[trigger] s[i]) && s.filter(keep)[0] == s[i] && forall|j: int|
                0 <= j < i ==> !keep(#[trigger] s[j]),
    decreases s.len(),
{
    if s.len() > 0 {
        let init = s.drop_last();
        assert(s =~= init.push(s.last()));
        seqs::lemma_filter_push(init, s.last(), keep);
        seqs::lemma_filter_members(init, keep);
        if init.filter(keep).len() > 0 {
            lemma_filter_first(init, keep);
            let i = choose|i: int|
                0 <= i < init.len() && keep(#[trigger] init[i]) && init.filter(keep)[0] == init[i]
                    && forall|j: int| 0 <= j < i ==> !keep(#[trigger] init[j]);
            assert(s[i] == init[i]);
            assert(s.filter(keep)[0] == init.filter(keep)[0]);
            assert forall|j: int| 0 <= j < i implies !keep(#[trigger] s[j]) by {
                assert(s[j] == init[j]);
            }
        } else {
            let last = s.len() - 1;
            assert(s[last] == s.last());
            assert forall|j: int| 0 <= j < last implies !keep(#[trigger] s[j]) by {
                assert(init[j] == s[j]);
                if keep(init[j]) {
                    assert(init.contains(init[j]));
                    assert(init.filter(keep).contains(init[j]));
                }
            }
        }
    } else {
        reveal(Seq::filter);
    }
}

proof fn lemma_deduped_keeps<A>(s: Seq<A>)
    ensures
        forall|x: A| #[trigger] seqs::deduped(s).contains(x) <==> s.contains(x),
        s.len() > 0 ==> seqs::deduped(s).len() > 0 && seqs::deduped(s).last() == s.last(),
    decreases s.len(),
{
    if s.len() > 0 {
        let init = s.drop_last();
        lemma_deduped_keeps(init);
        let before = seqs::deduped(init);
        let after = seqs::deduped(s);
        assert forall|x: A| #[trigger] after.contains(x) <==> s.contains(x) by {
            if s.contains(x) {
                let i = choose|i: int| 0 <= i < s.len() && s[i] == x;
                if i < init.len() {
                    assert(init[i] == x);
                    assert(before.contains(x));
                    let k = choose|k: int| 0 <= k < before.len() && before[k] == x;
                    assert(after[k] == x);
                } else {
                    assert(after[after.len() - 1] == x);
                }
            }
            if after.contains(x) {
                let k = choose|k: int| 0 <= k < after.len() && after[k] == x;
                if k < before.len() {
                    assert(before[k] == x);
                    assert(before.contains(x));
                    assert(init.contains(x));
                    let i = choose|i: int| 0 <= i < init.len() && init[i] == x;
                    assert(s[i] == x);
                } else {
                    assert(s[s.len() - 1] == x);
                }
            }
        }
    }
}

/// What there is to choose from is everything that plays as it is shown, in order,
/// and nothing else.
pub proof fn law_choices_are_what_plays(streams: Seq<PlaybackStreamView>)
    ensures
        sorting::in_order(audio_apps::available(streams)),
        forall|label: Seq<char>| #[trigger]
            audio_apps::available(streams).contains(label) <==> exists|i: int|
                0 <= i < streams.len() && audio_apps::shown(
                    audio_apps::application(#[trigger] streams[i]),
                ) == label,
{
    let all = audio_apps::shown_all(streams);
    sorting::law_sorting_keeps_and_orders(all);
    lemma_deduped_keeps(sorting::sorted(all));
    lemma_deduped_in_order(sorting::sorted(all));
    assert forall|label: Seq<char>| #[trigger]
        audio_apps::available(streams).contains(label) <==> exists|i: int|
            0 <= i < streams.len() && audio_apps::shown(
                audio_apps::application(#[trigger] streams[i]),
            ) == label by {
        if all.contains(label) {
            let i = choose|i: int| 0 <= i < all.len() && all[i] == label;
            assert(audio_apps::shown(audio_apps::application(streams[i])) == label);
        }
        if exists|i: int|
            0 <= i < streams.len() && audio_apps::shown(
                audio_apps::application(#[trigger] streams[i]),
            ) == label {
            let i = choose|i: int|
                0 <= i < streams.len() && audio_apps::shown(
                    audio_apps::application(#[trigger] streams[i]),
                ) == label;
            assert(all[i] == label);
        }
    }
}

proof fn lemma_deduped_in_order(s: Seq<Seq<char>>)
    requires
        sorting::in_order(s),
    ensures
        sorting::in_order(seqs::deduped(s)),
    decreases s.len(),
{
    if s.len() > 0 {
        let init = s.drop_last();
        assert forall|i: int, j: int| 0 <= i <= j < init.len() implies text::text_le(
            #[trigger] init[i],
            #[trigger] init[j],
        ) by {
            assert(text::text_le(s[i], s[j]));
        }
        lemma_deduped_in_order(init);
        lemma_deduped_keeps(init);
        let before = seqs::deduped(init);
        let after = seqs::deduped(s);
        assert forall|i: int, j: int| 0 <= i <= j < after.len() implies text::text_le(
            #[trigger] after[i],
            #[trigger] after[j],
        ) by {
            if j < before.len() {
                assert(after[i] == before[i] && after[j] == before[j]);
            } else if i < before.len() {
                assert(before.contains(before[i]));
                assert(init.contains(before[i]));
                let k = choose|k: int| 0 <= k < init.len() && init[k] == before[i];
                assert(text::text_le(s[k], s[s.len() - 1]));
            } else {
                assert(text::text_le(s[s.len() - 1], s[s.len() - 1]));
            }
        }
    }
}

/// A share without a choice carries, in order, each stream that answers to none of
/// the exclusions, and no other. It carries nothing exactly if nothing plays, or
/// nothing but what is excluded, and says which.
pub proof fn law_shares_carry_what_is_not_excluded(
    streams: Seq<PlaybackStreamView>,
    excluded: Seq<Seq<char>>,
)
    ensures
        ({
            let spared = |s: PlaybackStreamView|
                forall|k: int| 0 <= k < excluded.len() ==> !answers_to(s, #[trigger] excluded[k]);
            let left = streams.filter(spared);
            let decision = audio_apps::decided(streams, excluded);
            &&& left.len() > 0 <==> decision is Share
            &&& decision matches DefaultAudioDecisionView::Share(apps) ==> apps.len() == left.len()
                && forall|i: int|
                0 <= i < apps.len() ==> (#[trigger] apps[i]).serial == left[i].serial
                    && apps[i].binary == left[i].binary
            &&& streams.len() == 0 <==> decision == DefaultAudioDecisionView::NoAudio(
                NoAudioReasonView::NothingPlaying,
            )
            &&& streams.len() > 0 && left.len() == 0 <==> decision
                == DefaultAudioDecisionView::NoAudio(NoAudioReasonView::OnlyExcludedPlaying)
        }),
{
    let spared = |s: PlaybackStreamView|
        forall|k: int| 0 <= k < excluded.len() ==> !answers_to(s, #[trigger] excluded[k]);
    assert forall|s: PlaybackStreamView| #[trigger] spared(s) == audio_apps::spared(excluded)(s) by {
        law_one_of_several_names_is_enough(s, excluded);
    }
    assert(spared =~= audio_apps::spared(excluded));
    if streams.len() == 0 {
        reveal(Seq::filter);
    }
}

/// The targets of a mix are the serials of what the share carries, so that a mix
/// follows what plays: none where there is nothing to carry, and no change where
/// the graph cannot be read.
pub proof fn law_a_mix_targets_what_is_shared(decision: DefaultAudioDecisionView)
    ensures
        decision matches DefaultAudioDecisionView::Share(apps) ==> ({
            let mix = audio_apps::mix(decision);
            &&& mix is Some && mix->0.len() == apps.len()
            &&& forall|i: int|
                0 <= i < apps.len() ==> #[trigger] mix->0[i] == text::decimal(apps[i].serial as nat)
        }),
        decision matches DefaultAudioDecisionView::NoAudio(reason) ==> if reason
            is GraphUnreadable {
            audio_apps::mix(decision) is None
        } else {
            audio_apps::mix(decision) matches Some(none) && none.len() == 0
        },
{
}

/// An exclusion that was typed and that nothing answers to is refused by its own
/// name, the first one where there are several. Otherwise, and where nobody
/// typed it, all that answers to no exclusion is left, in order.
pub proof fn law_exclusions_leave_the_rest(
    streams: Seq<PlaybackStreamView>,
    excluded: Seq<Seq<char>>,
    missing: MissingExclusion,
)
    ensures
        ({
            let r = audio_apps::without(streams, excluded, missing);
            let unheard = |name: Seq<char>|
                forall|i: int| 0 <= i < streams.len() ==> !answers_to(#[trigger] streams[i], name);
            let spared = |s: PlaybackStreamView|
                forall|k: int| 0 <= k < excluded.len() ==> !answers_to(s, #[trigger] excluded[k]);
            let left = streams.filter(spared);
            &&& r is Err <==> missing == MissingExclusion::Reject && exists|k: int|
                0 <= k < excluded.len() && unheard(#[trigger] excluded[k])
            &&& r matches Err(error) ==> exists|k: int|
                0 <= k < excluded.len() && unheard(#[trigger] excluded[k]) && (forall|j: int|
                    0 <= j < k ==> !unheard(#[trigger] excluded[j])) && error == (
                AudioAppErrorView::NotFound {
                    name: excluded[k],
                    available: audio_apps::available(streams),
                })
            &&& r matches Ok(apps) ==> apps.len() == left.len() && forall|i: int|
                0 <= i < apps.len() ==> #[trigger] apps[i] == audio_apps::application(left[i])
        }),
{
    let unheard = |name: Seq<char>|
        forall|i: int| 0 <= i < streams.len() ==> !answers_to(#[trigger] streams[i], name);
    let other = audio_apps::unheard(streams);
    assert forall|name: Seq<char>| #[trigger] unheard(name) == other(name) by {
        assert forall|i: int| 0 <= i < streams.len() implies audio_apps::goes_by(
            #[trigger] streams[i],
            name,
        ) == answers_to(streams[i], name) by {
            law_streams_go_by_three_names(streams[i], name);
        }
    }
    seqs::lemma_first_where(excluded, other);
    let spared = |s: PlaybackStreamView|
        forall|k: int| 0 <= k < excluded.len() ==> !answers_to(s, #[trigger] excluded[k]);
    assert forall|s: PlaybackStreamView| #[trigger] spared(s) == audio_apps::spared(excluded)(s) by {
        law_one_of_several_names_is_enough(s, excluded);
    }
    assert(spared =~= audio_apps::spared(excluded));
    match seqs::first_where(excluded, other) {
        Some(k) => {
            assert(unheard(excluded[k]));
            assert forall|j: int| 0 <= j < k implies !unheard(#[trigger] excluded[j]) by {
                assert(!other(excluded[j]));
            }
        },
        None => {
            assert forall|k: int| 0 <= k < excluded.len() implies !unheard(#[trigger] excluded[k]) by {
                assert(!other(excluded[k]));
            }
        },
    }
}

/// A graph that could not be dumped is unavailable for the reason given: the
/// failure itself, or how the dump exited.
pub proof fn law_failed_dumps_say_why(output: DumpOutputView)
    ensures
        output matches DumpOutputView::Failed { error } ==> audio_apps::dumped(output) == Err::<
            Map<Seq<char>, JsonLeaf>,
            Seq<char>,
        >(error),
        output matches DumpOutputView::Exited { success, status, stdout } ==> if success {
            audio_apps::dumped(output) == audio_apps::json_parsed(stdout)
        } else {
            audio_apps::dumped(output) == Err::<Map<Seq<char>, JsonLeaf>, Seq<char>>(
                "pw-dump exited with "@ + status,
            )
        },
{
}

/// Whether an application is that of the stream at place `k`, and of none before
/// it as it is shown.
pub open spec fn first_shown(
    streams: Seq<PlaybackStreamView>,
    k: int,
    app: AudioApplicationView,
) -> bool {
    &&& 0 <= k < streams.len()
    &&& app == audio_apps::application(streams[k])
    &&& forall|j: int|
        0 <= j < k ==> audio_apps::shown(audio_apps::application(#[trigger] streams[j]))
            != audio_apps::shown(app)
}

/// Each application is listed as its first stream has it.
pub proof fn law_listed_applications_play(streams: Seq<PlaybackStreamView>, i: int)
    requires
        0 <= i < audio_apps::applications(streams).len(),
    ensures
        exists|k: int|
            #[trigger] first_shown(streams, k, audio_apps::applications(streams)[i]),
    decreases streams.len(),
{
    let init = streams.drop_last();
    let last = streams.last();
    let before = audio_apps::applications(init);
    let after = audio_apps::applications(streams);
    assert(init.push(last) =~= streams);
    if i < before.len() {
        assert(after[i] == before[i]);
        law_listed_applications_play(init, i);
        let k = choose|k: int| #[trigger] first_shown(init, k, before[i]);
        lemma_first_shown(init, last, k, before[i]);
        assert(first_shown(streams, k, after[i]));
    } else {
        lemma_last_shown(init, last);
        assert(first_shown(streams, init.len() as int, after[i]));
    }
}

proof fn lemma_first_shown(
    init: Seq<PlaybackStreamView>,
    last: PlaybackStreamView,
    k: int,
    app: AudioApplicationView,
)
    requires
        first_shown(init, k, app),
    ensures
        first_shown(init.push(last), k, app),
{
    assert forall|j: int| 0 <= j < k implies audio_apps::shown(
        audio_apps::application(#[trigger] init.push(last)[j]),
    ) != audio_apps::shown(app) by {
        assert(init.push(last)[j] == init[j]);
    }
}

proof fn lemma_last_shown(init: Seq<PlaybackStreamView>, last: PlaybackStreamView)
    requires
        forall|i: int|
            0 <= i < audio_apps::applications(init).len() ==> audio_apps::shown(
                #[trigger] audio_apps::applications(init)[i],
            ) != audio_apps::shown(audio_apps::application(last)),
    ensures
        first_shown(init.push(last), init.len() as int, audio_apps::application(last)),
{
    audio_apps::law_applications_are_listed_once(init);
    assert forall|j: int| 0 <= j < init.len() implies audio_apps::shown(
        audio_apps::application(#[trigger] init.push(last)[j]),
    ) != audio_apps::shown(audio_apps::application(last)) by {
        assert(init.push(last)[j] == init[j]);
    }
}

/// A refusal says what was asked for, and what there is to choose from: what is
/// playing, that nothing is, or what a name could mean.
pub proof fn law_refusals_say_what_there_is(
    name: Seq<char>,
    others: Seq<Seq<char>>,
    reason: Seq<char>,
)
    ensures
        others.len() == 0 ==> audio_apps::message_of(
            AudioAppErrorView::NotFound { name, available: others },
        ) == "no application matching \""@ + name + "\" is playing audio right now"@
            + "; nothing is playing audio"@,
        others.len() > 0 ==> audio_apps::message_of(
            AudioAppErrorView::NotFound { name, available: others },
        ) == "no application matching \""@ + name + "\" is playing audio right now"@ + (
        "; currently playing: "@ + text::joined(others, ", "@)),
        audio_apps::message_of(AudioAppErrorView::Ambiguous { name, matches: others }) == "\""@
            + name + "\" matches several applications: "@ + text::joined(others, ", "@)
            + "; be more specific"@,
        audio_apps::message_of(AudioAppErrorView::Unavailable(reason))
            == "the audio graph could not be inspected (is PipeWire running?): "@ + reason,
{
}

} // verus!
