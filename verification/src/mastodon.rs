//! Posting to Mastodon: the text of a status composed from a feed item, and
//! its length as Mastodon counts it.
pub mod extractor;
pub mod models;

use vstd::prelude::*;
use vstd::string::*;

use crate::delay::ErrorMessage;
use crate::feed::{opt_view, spec_item_debug, spec_trim, trim, NewFeedItem};
use crate::mastodon::models::{MastodonState, NewStatus, Visibility};
use crate::models::Service;
use crate::social_network::{AccessMode, PotentialPost, ReadyPost};
use crate::mastodon::extractor::{
    detect_entities, regex_capture_spans, regex_captures, spec_detect_entities, Entity, EntityView,
    RegexError, URL_PATTERN,
};
use crate::social_network::{process_tags, processed_tags};
use crate::text::{opt_str_view, byte_slice, join_strings, str_eq, lemma_str_decodes, push_char, seq_join, str_get, string_views};

verus! {

/// The default character limit of a status.
pub const MAX_LEN: usize = 500;

/// The number of characters that every link counts for.
pub const URL_LEN: usize = 23;

/// The extended grapheme clusters of `s` (when `extended`; else the legacy
/// clusters), as `unicode_segmentation` splits it.
pub uninterp spec fn grapheme_clusters(s: Seq<char>, extended: bool) -> Seq<Seq<char>>;

/// `UnicodeSegmentation::graphemes(s, extended)`, each cluster as a `String`:
/// the result is the one named `grapheme_clusters`.
#[verifier::external_body]
fn graphemes(s: &str, extended: bool) -> (r: Vec<String>)
    ensures
        string_views(r@) == grapheme_clusters(s@, extended),
{
    unicode_segmentation::UnicodeSegmentation::graphemes(s, extended).map(|g| g.to_string()).collect()
}

/// What an entity counts as: 23 asterisks for a link, `@` and the user name
/// for a mention (its domain does not count).
pub open spec fn replacement_of(e: EntityView) -> Seq<char> {
    match e {
        EntityView::Url { .. } => Seq::new(URL_LEN as nat, |i: int| '*'),
        EntityView::Mention(m) => seq!['@'] + m.username,
    }
}

/// The entities kept when overlapping ones are skipped: an entity is dropped
/// when the one just before it in the list ends after it begins.
pub open spec fn spec_skip_overlapping(es: Seq<EntityView>) -> Seq<EntityView>
    decreases es.len(),
{
    if es.len() == 0 {
        seq![]
    } else {
        let kept = spec_skip_overlapping(es.drop_last());
        if es.len() >= 2 && es[es.len() - 2].end() > es.last().start() {
            kept
        } else {
            kept.push(es.last())
        }
    }
}

/// The pieces of a text, from byte `index` on, with each entity replaced:
/// the text before an entity, then its replacement, and at last the text after
/// the last one. The pieces stop early at a slice that is not valid.
pub open spec fn replace_segments(bytes: Seq<u8>, index: int, es: Seq<EntityView>) -> Seq<Seq<char>>
    decreases es.len(),
{
    if es.len() == 0 {
        if index < bytes.len() {
            match byte_slice(bytes, index, bytes.len() as int) {
                Some(t) => seq![t],
                None => seq![],
            }
        } else {
            seq![]
        }
    } else {
        let e = es[0];
        let after = seq![replacement_of(e)] + replace_segments(bytes, e.end() as int, es.drop_first());
        if index < e.start() {
            match byte_slice(bytes, index, e.start() as int) {
                Some(t) => seq![t] + after,
                None => seq![],
            }
        } else {
            after
        }
    }
}

/// The text from byte `index` on with each entity replaced by what it counts
/// as: the text before an entity, its replacement, and so on, then the text
/// after the last one.
pub open spec fn replaced_text(bytes: Seq<u8>, index: int, es: Seq<EntityView>) -> Seq<char>
    decreases es.len(),
{
    if es.len() == 0 {
        vstd::utf8::decode_utf8(bytes.subrange(index, bytes.len() as int))
    } else {
        vstd::utf8::decode_utf8(bytes.subrange(index, es[0].start() as int)) + replacement_of(es[0])
            + replaced_text(bytes, es[0].end() as int, es.drop_first())
    }
}

/// Entities that lie in order in the text from `index` on: each from one
/// character boundary to another, each ending before the next begins.
pub open spec fn entities_in_order(bytes: Seq<u8>, index: int, es: Seq<EntityView>) -> bool {
    &&& es.len() > 0 ==> index <= es[0].start()
    &&& forall|i: int| 0 <= i < es.len() ==> {
        &&& (#[trigger] es[i]).start() <= es[i].end() <= bytes.len()
        &&& vstd::utf8::is_char_boundary(bytes, es[i].start() as int)
        &&& vstd::utf8::is_char_boundary(bytes, es[i].end() as int)
    }
    &&& forall|i: int| 0 <= i < es.len() - 1 ==> (#[trigger] es[i]).end() <= es[i + 1].start()
}

/// The pieces of a text with its entities replaced, joined, are the text with
/// each entity replaced, when the entities lie in order on character
/// boundaries.
pub proof fn law_replace_entities_joins(bytes: Seq<u8>, index: int, es: Seq<EntityView>)
    requires
        vstd::utf8::valid_utf8(bytes),
        0 <= index <= bytes.len(),
        vstd::utf8::is_char_boundary(bytes, index),
        entities_in_order(bytes, index, es),
    ensures
        seq_join(replace_segments(bytes, index, es), seq![]) == replaced_text(bytes, index, es),
    decreases es.len(),
{
    vstd::utf8::is_char_boundary_start_end_of_seq(bytes);
    let empty = Seq::<u8>::empty();
    assert(vstd::utf8::valid_utf8(empty));
    assert(vstd::utf8::decode_utf8(empty) =~= Seq::<char>::empty());
    if es.len() == 0 {
        if index < bytes.len() {
            assert(byte_slice(bytes, index, bytes.len() as int) == Some(replaced_text(bytes, index, es)));
            crate::text::lemma_seq_join_prepend(replaced_text(bytes, index, es), seq![]);
            assert(seq![replaced_text(bytes, index, es)] + Seq::<Seq<char>>::empty() =~= seq![replaced_text(bytes, index, es)]);
        } else {
            assert(bytes.subrange(index, bytes.len() as int) =~= Seq::<u8>::empty());
        }
    } else {
        let e = es[0];
        let rest = es.drop_first();
        assert(entities_in_order(bytes, e.end() as int, rest)) by {
            assert forall|i: int| 0 <= i < rest.len() implies {
                &&& (#[trigger] rest[i]).start() <= rest[i].end() <= bytes.len()
                &&& vstd::utf8::is_char_boundary(bytes, rest[i].start() as int)
                &&& vstd::utf8::is_char_boundary(bytes, rest[i].end() as int)
            } by {
                assert(rest[i] == es[i + 1]);
            }
            assert forall|i: int| 0 <= i < rest.len() - 1 implies (#[trigger] rest[i]).end() <= rest[i + 1].start() by {
                assert(rest[i] == es[i + 1]);
                assert(rest[i + 1] == es[i + 2]);
            }
            if rest.len() > 0 {
                assert(es[0].end() <= es[1].start());
            }
        }
        assert(es[0].start() <= es[0].end() <= bytes.len());
        law_replace_entities_joins(bytes, e.end() as int, rest);
        let after = replace_segments(bytes, e.end() as int, rest);
        crate::text::lemma_seq_join_prepend(replacement_of(e), after);
        assert(seq![replacement_of(e)] + after == seq![replacement_of(e)] + after);
        if index < e.start() {
            let t = vstd::utf8::decode_utf8(bytes.subrange(index, e.start() as int));
            assert(replace_segments(bytes, index, es) == seq![t] + (seq![replacement_of(e)] + after));
            crate::text::lemma_seq_join_prepend(t, seq![replacement_of(e)] + after);
        } else {
            assert(bytes.subrange(index, e.start() as int) =~= Seq::<u8>::empty());
            assert(replace_segments(bytes, index, es) == seq![replacement_of(e)] + after);
            assert(replaced_text(bytes, index, es) =~= replacement_of(e) + replaced_text(bytes, e.end() as int, rest));
        }
    }
}

/// The text of a status as Mastodon measures it: links as 23 characters,
/// mentions without their domain.
pub open spec fn spec_length_text(text: Seq<char>) -> Option<Seq<char>> {
    match spec_detect_entities(text) {
        None => None,
        Some(es) => Some(
            seq_join(replace_segments(vstd::utf8::encode_utf8(text), 0, spec_skip_overlapping(es)), seq![]),
        ),
    }
}

/// The length of a status as Mastodon counts it: the number of grapheme
/// clusters of `spec_length_text`.
pub open spec fn spec_length(text: Seq<char>) -> Option<nat> {
    match spec_length_text(text) {
        None => None,
        Some(t) => Some(grapheme_clusters(t, true).len()),
    }
}

/// The views of a list of entity references.
pub open spec fn entity_ref_views<'a>(es: Seq<&'a Entity>) -> Seq<EntityView> {
    es.map_values(|e: &'a Entity| e@)
}

/// The entities of `entities` that do not overlap the entity just before them.
pub fn skip_overlapping<'a>(entities: &'a [Entity]) -> (r: Vec<&'a Entity>)
    ensures
        entity_ref_views(r@) == spec_skip_overlapping(entities@.map_values(|e: Entity| e@)),
{
    let ghost all = entities@.map_values(|e: Entity| e@);
    let mut out: Vec<&'a Entity> = Vec::new();
    let n = entities.len();
    let mut i: usize = 0;
    assert(all.take(0) =~= Seq::<EntityView>::empty());
    while i < n
        invariant
            n == entities@.len(),
            i <= n,
            all == entities@.map_values(|e: Entity| e@),
            entity_ref_views(out@) == spec_skip_overlapping(all.take(i as int)),
        decreases n - i,
    {
        let ghost before = out@;
        assert(all.take(i + 1).drop_last() =~= all.take(i as int));
        if i == 0 || entities[i - 1].end() <= entities[i].start() {
            out.push(&entities[i]);
            assert(entity_ref_views(out@) =~= entity_ref_views(before).push(all[i as int]));
        }
        i = i + 1;
    }
    assert(all.take(n as int) =~= all);
    out
}

/// The text that an entity counts as.
fn replacement(e: &Entity) -> (r: String)
    ensures
        r@ == replacement_of(e@),
{
    match e {
        Entity::Url { .. } => {
            let mut s = String::new();
            let mut i: usize = 0;
            while i < URL_LEN
                invariant
                    i <= URL_LEN,
                    s@ == Seq::new(i as nat, |k: int| '*'),
                decreases URL_LEN - i,
            {
                push_char(&mut s, '*');
                assert(s@ =~= Seq::new((i + 1) as nat, |k: int| '*'));
                i = i + 1;
            }
            s
        },
        Entity::Mention(m) => {
            let mut s = String::new();
            push_char(&mut s, '@');
            s.append(m.username());
            s
        },
    }
}

/// The pieces of `string` with its entities replaced, in order.
pub fn replace_entities(string: &str, entities: &Vec<&Entity>) -> (r: Vec<String>)
    ensures
        string_views(r@) == replace_segments(string.spec_bytes(), 0, entity_ref_views(entities@)),
{
    let ghost bytes = string.spec_bytes();
    let ghost all = entity_ref_views(entities@);
    let mut out: Vec<String> = Vec::new();
    let mut index: usize = 0;
    let n = entities.len();
    let mut k: usize = 0;
    let len = string.as_bytes().len();
    assert(all.skip(0) =~= all);
    assert(string_views(out@) + replace_segments(bytes, 0, all) =~= replace_segments(bytes, 0, all));
    while k < n
        invariant
            n == entities@.len(),
            k <= n,
            len == bytes.len(),
            bytes == string.spec_bytes(),
            all == entity_ref_views(entities@),
            string_views(out@) + replace_segments(bytes, index as int, all.skip(k as int))
                == replace_segments(bytes, 0, all),
        decreases n - k,
    {
        let ghost before = string_views(out@);
        let ghost rest = all.skip(k as int);
        assert(rest.drop_first() =~= all.skip(k + 1));
        assert(rest[0] == entities@[k as int]@);
        let e = entities[k];
        let start = e.start();
        if index < start {
            match str_get(string, index, start) {
                Some(t) => {
                    out.push(String::from_str(t));
                },
                None => {
                    assert(string_views(out@) =~= string_views(out@) + Seq::<Seq<char>>::empty());
                    return out;
                },
            }
        }
        out.push(replacement(e));
        proof {
            let after = seq![replacement_of(rest[0])] + replace_segments(bytes, rest[0].end() as int, all.skip(k + 1));
            if index < start {
                assert(string_views(out@) =~= before + seq![byte_slice(bytes, index as int, start as int)->0, replacement_of(rest[0])]);
            } else {
                assert(string_views(out@) =~= before + seq![replacement_of(rest[0])]);
            }
            assert(string_views(out@) + replace_segments(bytes, rest[0].end() as int, all.skip(k + 1)) =~= before + replace_segments(bytes, index as int, rest));
        }
        index = e.end();
        k = k + 1;
    }
    assert(all.skip(n as int) =~= Seq::<EntityView>::empty());
    if index < len {
        match str_get(string, index, len) {
            Some(t) => {
                let ghost before = string_views(out@);
                out.push(String::from_str(t));
                assert(string_views(out@) =~= before + seq![t@]);
            },
            None => {
                assert(string_views(out@) =~= string_views(out@) + Seq::<Seq<char>>::empty());
            },
        }
    } else {
        assert(string_views(out@) =~= string_views(out@) + Seq::<Seq<char>>::empty());
    }
    out
}

/// The text of `toot` as Mastodon measures it.
pub fn process_for_length_calculation(toot: &str) -> (r: Result<String, RegexError>)
    ensures
        match r {
            Ok(t) => spec_length_text(toot@) == Some(t@),
            Err(_) => spec_length_text(toot@) is None,
        },
{
    let entities = detect_entities(toot)?;
    let kept = skip_overlapping(entities.as_slice());
    let pieces = replace_entities(toot, &kept);
    proof {
        reveal_strlit("");
        assert(""@ =~= Seq::<char>::empty());
        assert(entities@.map_values(|e: Entity| e@) =~= crate::mastodon::extractor::entity_views(entities@));
    }
    Ok(join_strings(&pieces, ""))
}

/// The length of `toot` as Mastodon counts it.
pub fn calculate_length(toot: &str) -> (r: Result<usize, RegexError>)
    ensures
        match r {
            Ok(n) => spec_length(toot@) == Some(n as nat),
            Err(_) => spec_length(toot@) is None,
        },
{
    let normalised = process_for_length_calculation(toot)?;
    let clusters = graphemes(normalised.as_str(), true);
    Ok(clusters.len())
}

/// The text of a status: the content, the link on a line of its own, and the
/// hashtags after a blank line; each separator only when text comes before.
pub open spec fn spec_assemble_text(
    content: Option<Seq<char>>,
    link: Option<Seq<char>>,
    hashtags: Option<Seq<char>>,
) -> Seq<char> {
    let t1 = match content {
        Some(c) => c,
        None => seq![],
    };
    let t2 = match link {
        Some(l) => if t1.len() > 0 {
            t1 + seq!['\n'] + l
        } else {
            l
        },
        None => t1,
    };
    match hashtags {
        Some(h) => if t2.len() > 0 {
            t2 + seq!['\n', '\n'] + h
        } else {
            h
        },
        None => t2,
    }
}

/// Puts the parts of a status together.
pub fn assemble_text(content: Option<&str>, link: Option<&str>, hashtags: Option<&str>) -> (r: String)
    ensures
        r@ == spec_assemble_text(opt_str_view(content), opt_str_view(link), opt_str_view(hashtags)),
{
    let mut text = String::new();
    if let Some(content) = content {
        text.append(content);
    }
    if let Some(link) = link {
        if text.as_str().unicode_len() != 0 {
            push_char(&mut text, '\n');
        }
        text.append(link);
    }
    if let Some(hashtags) = hashtags {
        if text.as_str().unicode_len() != 0 {
            push_char(&mut text, '\n');
            push_char(&mut text, '\n');
        }
        text.append(hashtags);
    }
    proof {
        let t1 = match opt_str_view(content) {
            Some(c) => c,
            None => Seq::<char>::empty(),
        };
        assert(Seq::<char>::empty() + t1 =~= t1);
    }
    text
}

/// The hashtags of an item: `#` and each processed tag.
pub open spec fn hashtag_words(tags: Seq<String>) -> Seq<Seq<char>> {
    processed_tags(tags).map_values(|t: Seq<char>| seq!['#'] + t)
}

/// The hashtags of an item joined by spaces.
pub open spec fn hashtags_text(tags: Seq<String>) -> Seq<char> {
    seq_join(hashtag_words(tags), seq![' '])
}

/// What the status shows of an item: its title, or else its summary.
pub open spec fn toot_content(item: NewFeedItem) -> Option<Seq<char>> {
    match opt_view(item.title) {
        Some(t) => Some(t),
        None => opt_view(item.summary),
    }
}

/// The first `k` grapheme clusters of `text` followed by an ellipsis.
pub open spec fn trimmed_content(text: Seq<char>, k: int) -> Seq<char> {
    seq_join(grapheme_clusters(text, true).take(k), seq![]) + seq!['\u{2026}']
}

/// The text of the status for `item`, within `max_len` as Mastodon counts:
/// `None` when the item has neither content nor link, when the length cannot
/// be measured, or when it is too long and there is no content to shorten or
/// not enough of it; else the assembled text, its content cut to as many
/// grapheme clusters less one as the text is too long, then an ellipsis.
pub open spec fn spec_toot_text(item: NewFeedItem, max_len: usize) -> Option<Seq<char>> {
    let content = toot_content(item);
    let link = opt_view(item.url);
    let tags = hashtags_text(item.tags@);
    let hashtags = if tags.len() > 0 {
        Some(tags)
    } else {
        None
    };
    if content is None && link is None {
        None
    } else {
        let toot = spec_assemble_text(content, link, hashtags);
        match spec_length(toot) {
            None => None,
            Some(len) => if len > max_len {
                match content {
                    None => None,
                    Some(text) => {
                        let count = grapheme_clusters(text, true).len();
                        let diff = len - max_len;
                        if count < diff + 1 {
                            None
                        } else {
                            Some(
                                spec_assemble_text(
                                    Some(trimmed_content(text, count - diff - 1)),
                                    link,
                                    hashtags,
                                ),
                            )
                        }
                    },
                }
            } else {
                Some(toot)
            },
        }
    }
}

/// The hashtags of a status for `tags`: none when there are no tags.
pub open spec fn toot_hashtags(tags: Seq<String>) -> Option<Seq<char>> {
    if hashtags_text(tags).len() > 0 {
        Some(hashtags_text(tags))
    } else {
        None
    }
}

/// A status is the item's content, link and hashtags put together, with only
/// the content ever shortened: a status left whole measures at most
/// `max_len`; otherwise its content is cut to a proper prefix of its grapheme
/// clusters and an ellipsis, and only because the whole measures more.
pub proof fn law_toot_shortens_only_content(item: NewFeedItem, max_len: usize)
    requires
        spec_toot_text(item, max_len) is Some,
    ensures
        ({
            let t = spec_toot_text(item, max_len)->0;
            let whole = spec_assemble_text(toot_content(item), opt_view(item.url), toot_hashtags(item.tags@));
            ||| (t == whole && (spec_length(whole) matches Some(n) && n <= max_len))
            ||| (toot_content(item) matches Some(c) && spec_length(whole) matches Some(n) && n > max_len
                && exists|k: int| 0 <= k < grapheme_clusters(c, true).len()
                    && t == spec_assemble_text(Some(trimmed_content(c, k)), opt_view(item.url), toot_hashtags(item.tags@)))
        }),
{
    let whole = spec_assemble_text(toot_content(item), opt_view(item.url), toot_hashtags(item.tags@));
    if let Some(n) = spec_length(whole) {
        if n > max_len {
            let c = toot_content(item)->0;
            let k = grapheme_clusters(c, true).len() - (n - max_len) - 1;
            assert(spec_toot_text(item, max_len)->0 == spec_assemble_text(
                Some(trimmed_content(c, k)),
                opt_view(item.url),
                toot_hashtags(item.tags@),
            ));
        }
    }
}

/// When a status can be composed for an item, and what it is. The content is
/// the item's title, or else its summary. A status is composed exactly when
/// the item has content or a link, the whole text can be measured, and, where
/// the whole measures more than `max_len`, the content has more grapheme
/// clusters than the excess. A whole text within `max_len` is the status as
/// it is; a longer one has its content cut to its clusters less the excess
/// and one more, then an ellipsis.
pub proof fn law_toot_text_when_composed(item: NewFeedItem, max_len: usize)
    ensures
        ({
            let content = match item.title {
                Some(t) => Some(t@),
                None => match item.summary {
                    Some(s) => Some(s@),
                    None => None,
                },
            };
            let link = match item.url {
                Some(u) => Some(u@),
                None => None,
            };
            let whole = spec_assemble_text(content, link, toot_hashtags(item.tags@));
            &&& spec_toot_text(item, max_len) is Some <==> {
                &&& content is Some || link is Some
                &&& spec_length(whole) is Some
                &&& spec_length(whole)->0 > max_len ==> (content is Some
                    && grapheme_clusters(content->0, true).len() > spec_length(whole)->0 - max_len)
            }
            &&& ((content is Some || link is Some) && spec_length(whole) is Some && spec_length(whole)->0 <= max_len)
                ==> spec_toot_text(item, max_len) == Some(whole)
            &&& ((content is Some || link is Some) && spec_length(whole) is Some && spec_length(whole)->0 > max_len
                && content is Some && grapheme_clusters(content->0, true).len() > spec_length(whole)->0 - max_len)
                ==> spec_toot_text(item, max_len) == Some(spec_assemble_text(
                    Some(trimmed_content(
                        content->0,
                        grapheme_clusters(content->0, true).len() - (spec_length(whole)->0 - max_len) - 1,
                    )),
                    link,
                    toot_hashtags(item.tags@),
                ))
        }),
{
}

/// The hashtags of a list of tags, as `hashtags_text` says.
fn hashtags_of(tags: &Vec<String>) -> (r: String)
    ensures
        r@ == hashtags_text(tags@),
{
    let processed = process_tags(tags.as_slice());
    let mut words: Vec<String> = Vec::new();
    let n = processed.len();
    let mut i: usize = 0;
    while i < n
        invariant
            n == processed@.len(),
            i <= n,
            string_views(processed@) =~= processed_tags(tags@),
            string_views(words@) =~= hashtag_words(tags@).take(i as int),
        decreases n - i,
    {
        let mut w = String::new();
        push_char(&mut w, '#');
        w.append(processed[i].as_str());
        let ghost before = words@;
        words.push(w);
        assert(string_views(words@) =~= string_views(before).push(seq!['#'] + processed@[i as int]@));
        assert(string_views(processed@)[i as int] == processed@[i as int]@);
        i = i + 1;
    }
    assert(hashtag_words(tags@).take(n as int) =~= hashtag_words(tags@));
    let mut sep = String::new();
    push_char(&mut sep, ' ');
    join_strings(&words, sep.as_str())
}

/// Composes the text of a status for `item` within `max_len` characters, as
/// `spec_toot_text` says.
pub fn toot_text_from_post(item: &NewFeedItem, max_len: usize) -> (r: Option<String>)
    ensures
        match r {
            Some(t) => spec_toot_text(*item, max_len) == Some(t@),
            None => spec_toot_text(*item, max_len) is None,
        },
{
    let hashtags = hashtags_of(&item.tags);
    let content: Option<&str> = match &item.title {
        Some(t) => Some(t.as_str()),
        None => match &item.summary {
            Some(s) => Some(s.as_str()),
            None => None,
        },
    };
    let link: Option<&str> = match &item.url {
        Some(u) => Some(u.as_str()),
        None => None,
    };
    if content.is_none() && link.is_none() {
        return None;
    }
    let tags: Option<&str> = if hashtags.as_str().unicode_len() != 0 {
        Some(hashtags.as_str())
    } else {
        None
    };
    assert(opt_str_view(content) == toot_content(*item));
    assert(opt_str_view(link) == opt_view(item.url));
    let toot = assemble_text(content, link, tags);
    let toot_len = match calculate_length(toot.as_str()) {
        Ok(n) => n,
        Err(_) => return None,
    };
    if toot_len > max_len {
        match content {
            Some(text) => {
                let diff = toot_len - max_len;
                let mut clusters = graphemes(text, true);
                let count = clusters.len();
                if count < diff || count - diff < 1 {
                    return None;
                }
                let target = count - diff - 1;
                let ghost all = clusters@;
                clusters.truncate(target);
                assert(string_views(clusters@) =~= string_views(all).take(target as int));
                let mut trimmed = join_strings(&clusters, "");
                push_char(&mut trimmed, '\u{2026}');
                proof {
                    reveal_strlit("");
                    assert(""@ =~= Seq::<char>::empty());
                }
                let t = assemble_text(Some(trimmed.as_str()), link, tags);
                Some(t)
            },
            None => None,
        }
    } else {
        Some(toot)
    }
}

/// A Mastodon account that posts go to.
#[derive(Debug)]
pub struct Mastodon {
    pub access_mode: AccessMode,
    pub post_visibility: Visibility,
    pub state: MastodonState,
}

impl Mastodon {
    /// The service this network is.
    pub fn service(&self) -> (r: Service)
        ensures
            r == Service::Mastodon,
    {
        Service::Mastodon
    }

    /// Whether posts are really made (not a dry run).
    pub fn is_writeable(&self) -> (r: bool)
        ensures
            r == (self.access_mode == AccessMode::ReadWrite),
    {
        self.access_mode == AccessMode::ReadWrite
    }

    /// The post for `item`: its status text within `MAX_LEN`, or an error
    /// naming the item when no text can be composed.
    pub fn prepare_post(&self, item: &NewFeedItem) -> (r: Result<PotentialPost, ErrorMessage>)
        ensures
            match spec_toot_text(*item, MAX_LEN) {
                Some(t) => r matches Ok(p) && p.text@ == t && p.guid@ == item.guid@ && p.image is None,
                None => r matches Err(e) && e.0@ == "Unable to compose toot for "@ + spec_item_debug(item@),
            },
    {
        match toot_text_from_post(item, MAX_LEN) {
            Some(text) => Ok(PotentialPost { text, guid: item.guid(), image: None }),
            None => {
                let mut msg = String::from_str("Unable to compose toot for ");
                msg.append(item.debug_text().as_str());
                Err(ErrorMessage(msg))
            },
        }
    }

    /// The status to send for a ready post: none in a dry run; else its text,
    /// public to the chosen audience, with nothing else set.
    pub fn status_for(&self, post: &ReadyPost) -> (r: Option<NewStatus>)
        ensures
            r is Some <==> self.access_mode == AccessMode::ReadWrite,
            r matches Some(s) ==> s.status@ == post.spec_text() && s.media_ids@.len() == 0
                && s.in_reply_to_id is None && !s.sensitive && s.spoiler_text is None
                && s.visibility == self.post_visibility && s.language is None,
    {
        if self.is_writeable() {
            Some(
                NewStatus {
                    status: String::from_str(post.text()),
                    media_ids: Vec::new(),
                    in_reply_to_id: None,
                    sensitive: false,
                    spoiler_text: None,
                    visibility: self.post_visibility,
                    language: None,
                },
            )
        } else {
            None
        }
    }
}

/// The OAuth scopes to ask for: posting statuses and media, and `profile` if
/// the server lists it among its supported scopes, else `read:accounts`.
pub open spec fn spec_scopes(supported: Option<Seq<Seq<char>>>) -> Seq<char> {
    let third = if supported matches Some(list) && list.contains("profile"@) {
        "profile"@
    } else {
        "read:accounts"@
    };
    "write:statuses write:media "@ + third
}

/// The OAuth scopes to ask for, given the scopes the server says it supports
/// (if it says).
pub fn scopes(supported: Option<&Vec<String>>) -> (r: String)
    ensures
        r@ == spec_scopes(
            match supported {
                Some(list) => Some(string_views(list@)),
                None => None,
            },
        ),
{
    let mut has_profile = false;
    if let Some(list) = supported {
        let n = list.len();
        let mut i: usize = 0;
        while i < n
            invariant
                n == list@.len(),
                i <= n,
                has_profile <==> exists|j: int| 0 <= j < i && list@[j]@ == "profile"@,
            decreases n - i,
        {
            if str_eq(list[i].as_str(), "profile") {
                has_profile = true;
            }
            i = i + 1;
        }
        proof {
            let views = string_views(list@);
            if has_profile {
                let j = choose|j: int| 0 <= j < n && list@[j]@ == "profile"@;
                assert(views[j] == "profile"@);
            } else {
                assert forall|j: int| 0 <= j < views.len() implies views[j] != "profile"@ by {
                    assert(views[j] == list@[j]@);
                }
            }
        }
    }
    let mut text = String::from_str("write:statuses write:media ");
    if has_profile {
        text.append("profile");
    } else {
        text.append("read:accounts");
    }
    text
}

/// Where the authorisation page sends its code: shown to the user, to paste.
pub const REDIRECT_URI: &'static str = "urn:ietf:wg:oauth:2.0:oob";

/// What `url::Url::parse(base)`, `join(path)` and then `append_pair` of each
/// of `pairs` in turn (through `query_pairs_mut`) give, as text; `None` if
/// the base does not parse or the join fails.
pub uninterp spec fn url_with_query(base: Seq<char>, path: Seq<char>, pairs: Seq<(Seq<char>, Seq<char>)>) -> Option<
    Seq<char>,
>;

/// The views of a list of name and value pairs.
pub open spec fn pair_views(pairs: Seq<(String, String)>) -> Seq<(Seq<char>, Seq<char>)> {
    pairs.map_values(|p: (String, String)| (p.0@, p.1@))
}

/// `url::Url::parse(base)`, `join(path)`, then `extend_pairs(pairs)` on its
/// `query_pairs_mut()`, as text: the result named `url_with_query`.
#[verifier::external_body]
fn join_with_query(base: &str, path: &str, pairs: &Vec<(String, String)>) -> (r: Option<String>)
    ensures
        match r {
            Some(t) => url_with_query(base@, path@, pair_views(pairs@)) == Some(t@),
            None => url_with_query(base@, path@, pair_views(pairs@)) is None,
        },
{
    let mut url = url::Url::parse(base).ok()?.join(path).ok()?;
    url.query_pairs_mut().extend_pairs(pairs.iter().map(|(k, v)| (k.as_str(), v.as_str())));
    Some(url.to_string())
}

/// The query of the authorisation page: a code is asked for this client,
/// for these scopes, shown to the user.
pub open spec fn authorize_pairs(client_id: Seq<char>, scopes: Seq<char>) -> Seq<(Seq<char>, Seq<char>)> {
    seq![
        ("response_type"@, "code"@),
        ("client_id"@, client_id),
        ("redirect_uri"@, REDIRECT_URI@),
        ("scope"@, scopes),
    ]
}

/// The URL of the authorisation page of `instance` for a client and scopes.
pub fn authorize_url(instance: &str, client_id: &str, scopes: &str) -> (r: Option<String>)
    ensures
        match r {
            Some(t) => url_with_query(instance@, "/oauth/authorize"@, authorize_pairs(client_id@, scopes@)) == Some(t@),
            None => url_with_query(instance@, "/oauth/authorize"@, authorize_pairs(client_id@, scopes@)) is None,
        },
{
    let pairs: Vec<(String, String)> = vec![
        (String::from_str("response_type"), String::from_str("code")),
        (String::from_str("client_id"), String::from_str(client_id)),
        (String::from_str("redirect_uri"), String::from_str(REDIRECT_URI)),
        (String::from_str("scope"), String::from_str(scopes)),
    ];
    assert(pair_views(pairs@) =~= authorize_pairs(client_id@, scopes@));
    join_with_query(instance, "/oauth/authorize", &pairs)
}

/// The message of an error response: the error, then `: ` and its
/// description if there is one.
pub open spec fn spec_error_message(error: Seq<char>, description: Option<Seq<char>>) -> Seq<char> {
    match description {
        Some(d) => error + ": "@ + d,
        None => error,
    }
}

/// The message of an error response.
pub fn error_message(error: &str, description: Option<&str>) -> (r: String)
    ensures
        r@ == spec_error_message(
            error@,
            match description {
                Some(d) => Some(d@),
                None => None,
            },
        ),
{
    let mut msg = String::from_str(error);
    if let Some(d) = description {
        msg.append(": ");
        msg.append(d);
    }
    msg
}

/// The authorisation code that the user pasted, without the white space
/// around it; an empty code is refused.
pub fn auth_code(input: &str) -> (r: Result<String, ErrorMessage>)
    ensures
        spec_trim(input@).len() > 0 ==> (r matches Ok(c) && c@ == spec_trim(input@)),
        spec_trim(input@).len() == 0 ==> (r matches Err(e) && e.0@ == "code is required"@),
{
    let code = trim(input);
    if code.as_str().unicode_len() == 0 {
        Err(ErrorMessage(String::from_str("code is required")))
    } else {
        Ok(code)
    }
}

/// The client identifier and secret of a registered application: both are
/// needed, the identifier checked first.
pub fn app_credentials(client_id: Option<String>, client_secret: Option<String>) -> (r: Result<(String, String), ErrorMessage>)
    ensures
        client_id is None ==> (r matches Err(e) && e.0@ == "app response is missing client id"@),
        client_id is Some && client_secret is None ==> (r matches Err(e)
            && e.0@ == "app response is missing client secret"@),
        client_id is Some && client_secret is Some ==> (r matches Ok((i, s))
            && i@ == client_id->0@ && s@ == client_secret->0@),
{
    let id = match client_id {
        Some(i) => i,
        None => return Err(ErrorMessage(String::from_str("app response is missing client id"))),
    };
    let secret = match client_secret {
        Some(s) => s,
        None => return Err(ErrorMessage(String::from_str("app response is missing client secret"))),
    };
    Ok((id, secret))
}

/// Compiles the link pattern once, to learn early whether the regular
/// expression engine accepts it.
pub fn precompile_regex() -> (r: bool)
    ensures
        r == !regex_capture_spans(URL_PATTERN@, ""@).1,
{
    !regex_captures(URL_PATTERN, "").1
}

} // verus!
