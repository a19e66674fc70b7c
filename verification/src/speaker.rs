//! Speaker classification: one raw marker line becomes a `Speaker`, and a
//! classified character name may raise an advisory notice.

use vstd::prelude::*;
use crate::text::{
    chars_of, eq_chars, lower_chars, lower_of, remove_first_char, remove_last_char,
    string_from_chars, views_of,
};

verus! {

/// Who or what produced one line of a panel.
#[derive(Clone, Debug)]
pub enum Speaker {
    /// A non-verbal sound effect.
    Sound,
    /// Narrative or caption text attributed to no character.
    Text,
    /// A named character; `uncommon` marks a rarely appearing one.
    Character { name: String, uncommon: bool },
}

/// The mathematical model of a `Speaker`.
pub enum SpeakerV {
    Sound,
    Text,
    Character { name: Seq<char>, uncommon: bool },
}

impl View for Speaker {
    type V = SpeakerV;

    open spec fn view(&self) -> SpeakerV {
        match self {
            Speaker::Sound => SpeakerV::Sound,
            Speaker::Text => SpeakerV::Text,
            Speaker::Character { name, uncommon } => SpeakerV::Character {
                name: name@,
                uncommon: *uncommon,
            },
        }
    }
}

/// A parse failure; each variant carries the offending line or count.
#[derive(Clone, Debug, PartialEq, Eq)]
pub enum ParseError {
    /// The source text holds no non-blank line at all.
    EmptyInput,
    /// The text segments into a panel count other than 3 or 7.
    InvalidPanelCount(usize),
    /// A speaker marker line with no text line after it.
    DanglingSpeaker(String),
    /// A line that neither ends in a colon nor matches a fixed keyword.
    InvalidSpeaker(String),
    /// A colon-terminated marker whose name is empty after stripping.
    MissingSpeakerName(String),
}

/// The mathematical model of a `ParseError`.
pub enum ErrorV {
    EmptyInput,
    InvalidPanelCount(int),
    DanglingSpeaker(Seq<char>),
    InvalidSpeaker(Seq<char>),
    MissingSpeakerName(Seq<char>),
}

impl View for ParseError {
    type V = ErrorV;

    open spec fn view(&self) -> ErrorV {
        match self {
            ParseError::EmptyInput => ErrorV::EmptyInput,
            ParseError::InvalidPanelCount(n) => ErrorV::InvalidPanelCount(*n as int),
            ParseError::DanglingSpeaker(l) => ErrorV::DanglingSpeaker(l@),
            ParseError::InvalidSpeaker(l) => ErrorV::InvalidSpeaker(l@),
            ParseError::MissingSpeakerName(l) => ErrorV::MissingSpeakerName(l@),
        }
    }
}

/// An advisory note about a likely authoring mistake; never a failure.
#[derive(Clone, Debug, PartialEq, Eq)]
pub enum Notice {
    /// A well-known character carried the uncommon marker.
    UncommonMarkOnCommonName { name: String },
    /// A name outside the common list carried no uncommon marker.
    MissingUncommonMark { name: String },
}

/// The mathematical model of a `Notice`.
pub enum NoticeV {
    UncommonMarkOnCommonName { name: Seq<char> },
    MissingUncommonMark { name: Seq<char> },
}

impl View for Notice {
    type V = NoticeV;

    open spec fn view(&self) -> NoticeV {
        match self {
            Notice::UncommonMarkOnCommonName { name } => NoticeV::UncommonMarkOnCommonName {
                name: name@,
            },
            Notice::MissingUncommonMark { name } => NoticeV::MissingUncommonMark { name: name@ },
        }
    }
}

/// The case-folded marker that denotes a sound effect.
pub open spec fn sound_keyword() -> Seq<char> {
    seq!['[', 's', 'o', 'n', 'o', ']']
}

/// The case-folded marker that denotes caption text.
pub open spec fn text_keyword() -> Seq<char> {
    seq!['[', 's', 'k', 'r', 'i', 'b', 'o', ']']
}

fn sound_keyword_chars() -> (r: Vec<char>)
    ensures
        r@ == sound_keyword(),
{
    let r = vec!['[', 's', 'o', 'n', 'o', ']'];
    proof {
        assert(r@ =~= sound_keyword());
    }
    r
}

fn text_keyword_chars() -> (r: Vec<char>)
    ensures
        r@ == text_keyword(),
{
    let r = vec!['[', 's', 'k', 'r', 'i', 'b', 'o', ']'];
    proof {
        assert(r@ =~= text_keyword());
    }
    r
}

/// The closed list of frequently recurring character names.
pub open spec fn common_names() -> Seq<Seq<char>> {
    seq![
        seq!['g', 'a', 'r', 'f', 'i', 'l', 'd', 'o'],
        seq!['j', 'o', 'n', 'o'],
        seq!['l', 'i', 'z', 'o'],
        seq!['o', 'd', 'i', 'o'],
        seq!['n', 'e', 'r', 'm', 'a', 'l', 'o'],
        seq!['a', 'r', 'l', 'i', 'n', 'o'],
        seq!['h', 'u', 'n', 'd', 'o'],
        seq!['t', 'e', 'l', 'e', 'v', 'i', 'd', 'i', 'l', 'o'],
        seq!['i', 'r', 'm', 'a'],
        seq!['m', 'u', 's', 'o'],
        seq!['a', 'r', 'a', 'n', 'e', 'o'],
        seq!['p', 'e', 's', 'i', 'l', 'o'],
        seq!['p', 'a', 't', 'r', 'i', 'n', 'o'],
        seq!['p', 'a', 't', 'r', 'o'],
    ]
}

fn common_name_list() -> (r: Vec<Vec<char>>)
    ensures
        views_of(r@) == common_names(),
{
    let mut r: Vec<Vec<char>> = Vec::new();
    r.push(vec!['g', 'a', 'r', 'f', 'i', 'l', 'd', 'o']);
    r.push(vec!['j', 'o', 'n', 'o']);
    r.push(vec!['l', 'i', 'z', 'o']);
    r.push(vec!['o', 'd', 'i', 'o']);
    r.push(vec!['n', 'e', 'r', 'm', 'a', 'l', 'o']);
    r.push(vec!['a', 'r', 'l', 'i', 'n', 'o']);
    r.push(vec!['h', 'u', 'n', 'd', 'o']);
    r.push(vec!['t', 'e', 'l', 'e', 'v', 'i', 'd', 'i', 'l', 'o']);
    r.push(vec!['i', 'r', 'm', 'a']);
    r.push(vec!['m', 'u', 's', 'o']);
    r.push(vec!['a', 'r', 'a', 'n', 'e', 'o']);
    r.push(vec!['p', 'e', 's', 'i', 'l', 'o']);
    r.push(vec!['p', 'a', 't', 'r', 'i', 'n', 'o']);
    r.push(vec!['p', 'a', 't', 'r', 'o']);
    proof {
        assert(views_of(r@) =~~= common_names());
    }
    r
}

/// Whether a case-folded name stands in the fixed common-name list.
pub fn is_common(name: &Vec<char>) -> (r: bool)
    ensures
        r == common_names().contains(name@),
{
    let list = common_name_list();
    let mut i: usize = 0;
    while i < list.len()
        invariant
            i <= list@.len(),
            views_of(list@) == common_names(),
            forall|j: int| 0 <= j < i ==> common_names()[j] != name@,
        decreases list@.len() - i,
    {
        if eq_chars(&list[i], name) {
            assert(common_names()[i as int] == name@);
            return true;
        }
        i = i + 1;
    }
    assert(!common_names().contains(name@));
    false
}

/// What classification returns for one trimmed marker line: a marker that
/// does not end in a colon must case-fold to a fixed keyword; one that does
/// yields a character whose name is the case-folded remainder, with a
/// leading tilde consumed as the uncommon flag. A name empty after
/// stripping is rejected.
pub open spec fn classify_spec(l: Seq<char>) -> Result<SpeakerV, ErrorV> {
    if l.len() == 0 || l.last() != ':' {
        if lower_of(l) == sound_keyword() {
            Result::Ok(SpeakerV::Sound)
        } else if lower_of(l) == text_keyword() {
            Result::Ok(SpeakerV::Text)
        } else {
            Result::Err(ErrorV::InvalidSpeaker(l))
        }
    } else {
        let low = lower_of(l.drop_last());
        if low.len() > 0 && low[0] == '~' {
            let name = low.drop_first();
            if name.len() == 0 {
                Result::Err(ErrorV::MissingSpeakerName(l))
            } else {
                Result::Ok(SpeakerV::Character { name, uncommon: true })
            }
        } else if low.len() == 0 {
            Result::Err(ErrorV::MissingSpeakerName(l))
        } else {
            Result::Ok(SpeakerV::Character { name: low, uncommon: false })
        }
    }
}

/// Whether an executable classification result realizes the spec-level one.
pub open spec fn speaker_result_matches(
    r: Result<Speaker, ParseError>,
    sr: Result<SpeakerV, ErrorV>,
) -> bool {
    match (r, sr) {
        (Result::Ok(sp), Result::Ok(sv)) => sp@ == sv,
        (Result::Err(e), Result::Err(ev)) => e@ == ev,
        _ => false,
    }
}

/// The keyword speaker a case-folded non-colon marker denotes, if either.
pub fn keyword_from_folded(folded: &Vec<char>) -> (r: Option<Speaker>)
    ensures
        folded@ == sound_keyword() ==> (r matches Option::Some(sp) && sp@ == SpeakerV::Sound),
        folded@ == text_keyword() ==> (r matches Option::Some(sp) && sp@ == SpeakerV::Text),
        folded@ != sound_keyword() && folded@ != text_keyword() ==> r is None,
{
    let sound = sound_keyword_chars();
    let text = text_keyword_chars();
    if eq_chars(folded, &sound) {
        Option::Some(Speaker::Sound)
    } else if eq_chars(folded, &text) {
        Option::Some(Speaker::Text)
    } else {
        Option::None
    }
}

/// The character speaker a case-folded, colon-stripped marker denotes: a
/// leading tilde is consumed as the uncommon flag and stripped from the
/// name. `None` when the name would be empty.
pub fn character_from_folded(folded: &Vec<char>) -> (r: Option<Speaker>)
    ensures
        ({
            if folded@.len() > 0 && folded@[0] == '~' {
                if folded@.len() == 1 {
                    r is None
                } else {
                    r matches Option::Some(sp) && sp@ == (SpeakerV::Character {
                        name: folded@.drop_first(),
                        uncommon: true,
                    })
                }
            } else if folded@.len() == 0 {
                r is None
            } else {
                r matches Option::Some(sp) && sp@ == (SpeakerV::Character {
                    name: folded@,
                    uncommon: false,
                })
            }
        }),
{
    if folded.len() > 0 && folded[0] == '~' {
        let name = remove_first_char(folded);
        if name.len() == 0 {
            Option::None
        } else {
            Option::Some(Speaker::Character { name: string_from_chars(&name), uncommon: true })
        }
    } else {
        if folded.len() == 0 {
            Option::None
        } else {
            Option::Some(Speaker::Character { name: string_from_chars(folded), uncommon: false })
        }
    }
}

/// Classify one trimmed marker line.
pub fn classify(line: &Vec<char>) -> (r: Result<Speaker, ParseError>)
    ensures
        speaker_result_matches(r, classify_spec(line@)),
{
    let has_colon = line.len() > 0 && line[line.len() - 1] == ':';
    if !has_colon {
        let low = lower_chars(line);
        match keyword_from_folded(&low) {
            Option::Some(sp) => Result::Ok(sp),
            Option::None => Result::Err(ParseError::InvalidSpeaker(string_from_chars(line))),
        }
    } else {
        let stripped = remove_last_char(line);
        let low = lower_chars(&stripped);
        match character_from_folded(&low) {
            Option::Some(sp) => Result::Ok(sp),
            Option::None => Result::Err(ParseError::MissingSpeakerName(string_from_chars(line))),
        }
    }
}

/// The advisory notice a freshly classified speaker raises, if any: an
/// uncommon mark on a common name, or a missing mark on an unknown one.
pub open spec fn notice_spec(sp: SpeakerV) -> Option<NoticeV> {
    match sp {
        SpeakerV::Character { name, uncommon } => {
            if uncommon && common_names().contains(name) {
                Option::Some(NoticeV::UncommonMarkOnCommonName { name })
            } else if !uncommon && !common_names().contains(name) {
                Option::Some(NoticeV::MissingUncommonMark { name })
            } else {
                Option::None
            }
        },
        _ => Option::None,
    }
}

/// The advisory notice a speaker raises at classification time, if any.
pub fn speaker_notice(sp: &Speaker) -> (r: Option<Notice>)
    ensures
        match (r, notice_spec(sp@)) {
            (Option::Some(n), Option::Some(nv)) => n@ == nv,
            (Option::None, Option::None) => true,
            _ => false,
        },
{
    match sp {
        Speaker::Character { name, uncommon } => {
            let name_chars = chars_of(name.as_str());
            let common = is_common(&name_chars);
            if *uncommon && common {
                Option::Some(Notice::UncommonMarkOnCommonName { name: name.clone() })
            } else if !*uncommon && !common {
                Option::Some(Notice::MissingUncommonMark { name: name.clone() })
            } else {
                Option::None
            }
        },
        _ => Option::None,
    }
}

impl Speaker {
    /// The (name, uncommon) pair of a character speaker; `None` for a sound
    /// or caption line.
    pub fn character(&self) -> (r: Option<(&str, bool)>)
        ensures
            match *self {
                Speaker::Character { name, uncommon } => {
                    &&& r matches Option::Some(p)
                    &&& p.0@ == name@
                    &&& p.1 == uncommon
                },
                _ => r is None,
            },
    {
        match self {
            Speaker::Character { name, uncommon } => Option::Some((name.as_str(), *uncommon)),
            _ => Option::None,
        }
    }
}

} // verus!
