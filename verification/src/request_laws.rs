//! What holds between writing a request down and reading it back.

use crate::json::{lookup, JsonView};
use crate::request::{
    cmd_key, decoded, encoded, optional_field, parameters, tag_entry, tag_fields, tag_key,
    tag_of_entry, tag_of_fields, text_of, text_or_left_out, ApiRequestView, DecodeError,
    RequestTagView,
};
use vstd::prelude::*;

verus! {

/// Whether no entry of a list is filed under `key`.
pub open spec fn lacks(entries: Seq<(Seq<char>, JsonView)>, key: Seq<char>) -> bool {
    forall|i: int| 0 <= i < entries.len() ==> (#[trigger] entries[i]).0 != key
}

/// A lookup passes over leading entries that are filed under other keys.
pub proof fn lemma_lookup_skips(
    front: Seq<(Seq<char>, JsonView)>,
    back: Seq<(Seq<char>, JsonView)>,
    key: Seq<char>,
)
    requires
        lacks(front, key),
    ensures
        lookup(front + back, key) == lookup(back, key),
    decreases front.len(),
{
    if front.len() == 0 {
        assert(front + back =~= back);
    } else {
        let rest = front.drop_first();
        assert((front + back)[0] == front[0]);
        assert((front + back).drop_first() =~= rest + back);
        assert forall|i: int| 0 <= i < rest.len() implies (#[trigger] rest[i]).0 != key by {
            assert(rest[i] == front[i + 1]);
        }
        lemma_lookup_skips(rest, back, key);
    }
}

/// A lookup finds nothing where no entry is filed under the key.
pub proof fn lemma_lookup_misses(entries: Seq<(Seq<char>, JsonView)>, key: Seq<char>)
    requires
        lacks(entries, key),
    ensures
        lookup(entries, key) is None,
{
    lemma_lookup_skips(entries, Seq::empty(), key);
    assert(entries + Seq::<(Seq<char>, JsonView)>::empty() =~= entries);
}

/// The parameters of a list are those of its front followed by those of its
/// back.
pub proof fn lemma_parameters_of_parts(
    front: Seq<(Seq<char>, JsonView)>,
    back: Seq<(Seq<char>, JsonView)>,
)
    ensures
        parameters(front + back) == parameters(front) + parameters(back),
    decreases back.len(),
{
    reveal(Seq::filter);
    if back.len() == 0 {
        assert(front + back =~= front);
        assert(parameters(front) + parameters(back) =~= parameters(front));
    } else {
        let rest = back.drop_last();
        lemma_parameters_of_parts(front, rest);
        assert((front + back).drop_last() =~= front + rest);
        assert((front + back).last() == back.last());
        let e = back.last();
        if e.0 != cmd_key() && e.0 != tag_key() {
            assert((parameters(front) + parameters(rest)).push(e) =~= parameters(front)
                + parameters(rest).push(e));
        }
    }
}

/// A list whose keys are all free for parameters is its own list of parameters.
pub proof fn lemma_parameters_kept(entries: Seq<(Seq<char>, JsonView)>)
    requires
        lacks(entries, cmd_key()),
        lacks(entries, tag_key()),
    ensures
        parameters(entries) == entries,
    decreases entries.len(),
{
    reveal(Seq::filter);
    if entries.len() > 0 {
        let rest = entries.drop_last();
        assert forall|i: int| 0 <= i < rest.len() implies (#[trigger] rest[i]).0 != cmd_key()
            && rest[i].0 != tag_key() by {
            assert(rest[i] == entries[i]);
        }
        lemma_parameters_kept(rest);
        assert(entries.last() == entries[entries.len() - 1]);
        assert(rest.push(entries.last()) =~= entries);
    }
}

/// The six keys of the wire shape are pairwise different where it matters.
pub proof fn lemma_keys_differ()
    ensures
        cmd_key() != tag_key(),
        "datapointer"@ != "callback"@,
        "datapointer"@ != "extension"@,
        "callback"@ != "extension"@,
{
    reveal_strlit("_cmd");
    reveal_strlit("_tag");
    reveal_strlit("datapointer");
    reveal_strlit("callback");
    reveal_strlit("extension");
    assert("_cmd"@[1] != "_tag"@[1]);
    assert("datapointer"@.len() != "callback"@.len());
    assert("datapointer"@.len() != "extension"@.len());
    assert("callback"@.len() != "extension"@.len());
}

/// The fields that a tag is written as are read back as that tag.
pub proof fn lemma_tag_reads_back(tag: RequestTagView)
    ensures
        tag_of_fields(tag_fields(tag)) == Some(tag),
        tag_of_entry(lookup(tag_entry(Some(tag)), tag_key())) == Ok::<
            Option<RequestTagView>,
            DecodeError,
        >(Some(tag)),
        tag_of_entry(lookup(tag_entry(None), tag_key())) == Ok::<
            Option<RequestTagView>,
            DecodeError,
        >(None),
{
    lemma_keys_differ();
    let first = seq![("datapointer"@, JsonView::Text(tag.datapointer))];
    let second = optional_field("callback"@, tag.callback);
    let third = optional_field("extension"@, tag.extension);
    let fields = tag_fields(tag);
    assert(fields == first + second + third);
    // datapointer: the first entry
    assert(fields[0] == first[0]);
    assert(lookup(fields, "datapointer"@) == Some(JsonView::Text(tag.datapointer)));
    // callback: after the first entry
    assert(lacks(first, "callback"@));
    assert(first + second + third =~= first + (second + third));
    lemma_lookup_skips(first, second + third, "callback"@);
    match tag.callback {
        Some(s) => {
            assert((second + third)[0] == second[0]);
            assert(lookup(second + third, "callback"@) == Some(JsonView::Text(s)));
        },
        None => {
            assert(second + third =~= third);
            assert(lacks(third, "callback"@));
            lemma_lookup_misses(third, "callback"@);
        },
    }
    assert(text_of(lookup(fields, "callback"@)) == tag.callback);
    assert(text_or_left_out(lookup(fields, "callback"@)));
    // extension: after the first two
    assert(lacks(first + second, "extension"@));
    lemma_lookup_skips(first + second, third, "extension"@);
    match tag.extension {
        Some(s) => {
            assert(third[0] == ("extension"@, JsonView::Text(s)));
            assert(lookup(third, "extension"@) == Some(JsonView::Text(s)));
        },
        None => {
            lemma_lookup_misses(third, "extension"@);
        },
    }
    assert(text_of(lookup(fields, "extension"@)) == tag.extension);
    assert(text_or_left_out(lookup(fields, "extension"@)));
    assert(tag_of_fields(fields) == Some(tag));
    let entry = tag_entry(Some(tag));
    assert(entry[0].0 == tag_key());
    assert(lookup(entry, tag_key()) == Some(JsonView::Object(fields)));
    lemma_lookup_misses(tag_entry(None), tag_key());
}

/// Reading back what was written gives the request that was written, as long
/// as none of its parameters is filed under `_cmd` or `_tag`.
pub proof fn lemma_decode_reads_back(request: ApiRequestView)
    requires
        lacks(request.params, cmd_key()),
        lacks(request.params, tag_key()),
    ensures
        decoded(encoded(request)) == Ok::<ApiRequestView, DecodeError>(request),
{
    lemma_keys_differ();
    let first = seq![(cmd_key(), JsonView::Text(request.cmd))];
    let last = tag_entry(request.tag);
    let entries = first + request.params + last;
    assert(entries[0] == first[0]);
    assert(lookup(entries, cmd_key()) == Some(JsonView::Text(request.cmd)));
    assert(lacks(first + request.params, tag_key()));
    lemma_lookup_skips(first + request.params, last, tag_key());
    match request.tag {
        Some(tag) => {
            lemma_tag_reads_back(tag);
        },
        None => {
            lemma_lookup_misses(last, tag_key());
        },
    }
    assert(tag_of_entry(lookup(entries, tag_key())) == Ok::<Option<RequestTagView>, DecodeError>(
        request.tag,
    ));
    lemma_parameters_of_parts(first + request.params, last);
    lemma_parameters_of_parts(first, request.params);
    lemma_parameters_kept(request.params);
    assert(parameters(first) =~= Seq::empty()) by {
        reveal(Seq::filter);
        assert(first.drop_last() =~= Seq::empty());
        assert(parameters(Seq::empty()) =~= Seq::empty());
    }
    assert(parameters(last) =~= Seq::empty()) by {
        reveal(Seq::filter);
        if last.len() > 0 {
            assert(last.drop_last() =~= Seq::empty());
        }
        assert(parameters(Seq::empty()) =~= Seq::empty());
    }
    assert(parameters(entries) =~= request.params);
}

} // verus!
