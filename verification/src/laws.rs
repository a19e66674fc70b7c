//! The laws of the parser, each stated over the spec-level pipeline and
//! proved for every input the law admits.

use vstd::prelude::*;
use crate::speaker::{classify_spec, sound_keyword, text_keyword, ErrorV, SpeakerV};
use crate::text::{is_space, lower_of, normalized, split_on, trim_spec};
use crate::transcript::{
    content_lines, content_lines_of, panel_groups, panel_spec, panels_spec, parse_spec,
    LineV, Transcript,
};

verus! {

/// Law: a transcript always holds exactly 3 or exactly 7 panels; no other
/// count is representable.
pub proof fn lemma_transcript_panel_count(t: Transcript)
    ensures
        t@.len() == 3 || t@.len() == 7,
{
    match t {
        Transcript::Normal(p) => {
            assert(t@.len() == 3);
        },
        Transcript::Sunday(p) => {
            assert(t@.len() == 7);
        },
    }
}

/// Law: parsing succeeds exactly when the text has retained content, every
/// panel block parses, and the block count is 3 or 7; a success hands back
/// those parsed panels unchanged.
pub proof fn lemma_parse_success(s: Seq<char>)
    ensures
        parse_spec(s).0 is Ok <==> ({
            &&& content_lines(s).len() > 0
            &&& panels_spec(panel_groups(s)).0 is Ok
            &&& (panels_spec(panel_groups(s)).0 matches Result::Ok(ps) ==> ps.len() == 3
                || ps.len() == 7)
        }),
        parse_spec(s).0 is Ok ==> parse_spec(s).0 == panels_spec(panel_groups(s)).0,
        parse_spec(s).0 matches Result::Ok(ps) ==> ps.len() == 3 || ps.len() == 7,
{
}

/// Law: when every panel block parses but the count is neither 3 nor 7,
/// the parse fails as `InvalidPanelCount` carrying the observed count.
pub proof fn lemma_invalid_panel_count(s: Seq<char>, ps: Seq<Seq<LineV>>)
    requires
        content_lines(s).len() > 0,
        panels_spec(panel_groups(s)).0 == Result::<Seq<Seq<LineV>>, ErrorV>::Ok(ps),
        ps.len() != 3,
        ps.len() != 7,
    ensures
        parse_spec(s).0 == Result::<Seq<Seq<LineV>>, ErrorV>::Err(
            ErrorV::InvalidPanelCount(ps.len() as int),
        ),
{
}

spec fn all_space(t: Seq<char>) -> bool {
    forall|i: int| 0 <= i < t.len() ==> is_space(t[i])
}

proof fn lemma_split_all_space(s: Seq<char>)
    requires
        all_space(s),
    ensures
        forall|k: int|
            0 <= k < split_on(s, '\n').len() ==> all_space(#[trigger] split_on(s, '\n')[k]),
    decreases s.len(),
{
    if s.len() == 0 {
    } else {
        assert(all_space(s.drop_first()));
        lemma_split_all_space(s.drop_first());
        let rest = split_on(s.drop_first(), '\n');
        if s[0] == '\n' {
            assert forall|k: int| 0 <= k < split_on(s, '\n').len() implies all_space(
                #[trigger] split_on(s, '\n')[k],
            ) by {
                if k > 0 {
                    assert(split_on(s, '\n')[k] == rest[k - 1]);
                }
            }
        } else {
            assert(is_space(s[0]));
            assert forall|k: int| 0 <= k < split_on(s, '\n').len() implies all_space(
                #[trigger] split_on(s, '\n')[k],
            ) by {
                if k == 0 {
                    let seg = seq![s[0]] + rest[0];
                    assert(split_on(s, '\n')[0] == seg);
                    assert forall|i: int| 0 <= i < seg.len() implies is_space(seg[i]) by {
                        if i > 0 {
                            assert(seg[i] == rest[0][i - 1]);
                        }
                    }
                } else {
                    assert(split_on(s, '\n')[k] == rest.drop_first()[k - 1]);
                    assert(rest.drop_first()[k - 1] == rest[k]);
                }
            }
        }
    }
}

proof fn lemma_trim_all_space(t: Seq<char>)
    requires
        all_space(t),
    ensures
        trim_spec(t).len() == 0,
    decreases t.len(),
{
    if t.len() == 0 {
    } else {
        assert(is_space(t[0]));
        assert(all_space(t.drop_first()));
        lemma_trim_all_space(t.drop_first());
    }
}

proof fn lemma_content_of_blank(ls: Seq<Seq<char>>)
    requires
        forall|k: int| 0 <= k < ls.len() ==> all_space(#[trigger] ls[k]),
    ensures
        content_lines_of(ls).len() == 0,
    decreases ls.len(),
{
    if ls.len() == 0 {
    } else {
        lemma_trim_all_space(ls[0]);
        assert(forall|k: int|
            0 <= k < ls.drop_first().len() ==> all_space(#[trigger] ls.drop_first()[k]));
        lemma_content_of_blank(ls.drop_first());
    }
}

/// Law: a text whose characters are all whitespace — the empty text
/// included — is rejected as `EmptyInput`.
pub proof fn lemma_empty_input(s: Seq<char>)
    requires
        forall|i: int| 0 <= i < s.len() ==> is_space(s[i]),
    ensures
        parse_spec(s).0 == Result::<Seq<Seq<LineV>>, ErrorV>::Err(ErrorV::EmptyInput),
{
    lemma_split_all_space(s);
    lemma_content_of_blank(split_on(s, '\n'));
}

/// Law: a panel block with an odd number of retained lines, whose marker
/// lines all classify, fails as `DanglingSpeaker` naming the last line.
pub proof fn lemma_dangling_speaker(ls: Seq<Seq<char>>)
    requires
        ls.len() % 2 == 1,
        forall|k: int| 0 <= k < ls.len() && k % 2 == 0 ==> (#[trigger] classify_spec(ls[k])) is Ok,
    ensures
        panel_spec(ls).0 == Result::<Seq<LineV>, ErrorV>::Err(ErrorV::DanglingSpeaker(ls.last())),
    decreases ls.len(),
{
    assert(classify_spec(ls[0]) is Ok);
    if ls.len() == 1 {
    } else {
        let rest = ls.skip(2);
        assert forall|k: int| 0 <= k < rest.len() && k % 2 == 0 implies (#[trigger] classify_spec(
            rest[k],
        )) is Ok by {
            assert(rest[k] == ls[k + 2]);
            assert((k + 2) % 2 == 0);
        }
        lemma_dangling_speaker(rest);
        assert(rest.last() == ls.last());
    }
}

/// Law: a marker line that does not end in a colon and case-folds to
/// neither fixed keyword is rejected as `InvalidSpeaker` naming the line.
pub proof fn lemma_invalid_speaker(l: Seq<char>)
    requires
        l.len() == 0 || l.last() != ':',
    ensures
        lower_of(l) != sound_keyword() && lower_of(l) != text_keyword() ==> classify_spec(l)
            == Result::<SpeakerV, ErrorV>::Err(ErrorV::InvalidSpeaker(l)),
{
}

/// Law: classification round trip for character markers. A colon-terminated
/// marker yields the case-folded remainder as the name with the uncommon
/// flag clear; with a leading tilde in the folded remainder, the tilde is
/// consumed as the uncommon flag and stripped from the name.
pub proof fn lemma_character_classification(l: Seq<char>)
    requires
        l.len() > 0,
        l.last() == ':',
    ensures
        ({
            let low = lower_of(l.drop_last());
            &&& (low.len() > 0 && low[0] != '~' ==> classify_spec(l) == Result::<
                SpeakerV,
                ErrorV,
            >::Ok(SpeakerV::Character { name: low, uncommon: false }))
            &&& (low.len() > 1 && low[0] == '~' ==> classify_spec(l) == Result::<
                SpeakerV,
                ErrorV,
            >::Ok(SpeakerV::Character { name: low.drop_first(), uncommon: true }))
        }),
{
}

/// Law: normalization leaves a tilde-free text unchanged.
pub proof fn lemma_normalized_no_tilde(t: Seq<char>)
    requires
        forall|i: int| 0 <= i < t.len() ==> t[i] != '~',
    ensures
        normalized(t) == t,
{
    assert(normalized(t) =~= t);
}

/// Law: normalization is idempotent — its result holds no tilde, so a
/// second pass changes nothing.
pub proof fn lemma_normalized_idempotent(t: Seq<char>)
    ensures
        normalized(normalized(t)) == normalized(t),
{
    assert(normalized(normalized(t)) =~= normalized(t));
}

} // verus!
