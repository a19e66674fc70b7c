//! The transcript parser: segmentation of the raw text into panels, pairing
//! of marker and text lines, assembly of the validated `Transcript`, and the
//! read-only queries over the result.

use vstd::prelude::*;
use crate::speaker::{
    classify, classify_spec, notice_spec, speaker_notice, ErrorV, Notice, NoticeV, ParseError,
    Speaker, SpeakerV,
};
use crate::text::{
    chars_of, clone_chars, eq_chars, format_transcript_text, normalized, split_newlines, split_on,
    string_from_chars, trim_line, trim_spec, views_of, lemma_split_on_len,
};

verus! {

/// One utterance of a panel: who produced it and the normalized text.
#[derive(Clone, Debug)]
pub struct Line {
    pub speaker: Speaker,
    pub text: String,
}

/// The mathematical model of a `Line`.
pub struct LineV {
    pub speaker: SpeakerV,
    pub text: Seq<char>,
}

impl View for Line {
    type V = LineV;

    open spec fn view(&self) -> LineV {
        LineV { speaker: self.speaker@, text: self.text@ }
    }
}

/// The models of a sequence of lines.
pub open spec fn lines_view(ls: Seq<Line>) -> Seq<LineV> {
    ls.map_values(|l: Line| l@)
}

/// One drawn frame: its utterances in reading order. A panel with no line
/// is valid.
#[derive(Clone, Debug)]
pub struct Panel {
    pub lines: Vec<Line>,
}

impl View for Panel {
    type V = Seq<LineV>;

    open spec fn view(&self) -> Seq<LineV> {
        lines_view(self.lines@)
    }
}

/// The models of a sequence of panels.
pub open spec fn panels_view(ps: Seq<Panel>) -> Seq<Seq<LineV>> {
    ps.map_values(|p: Panel| p@)
}

/// A parsed strip: exactly 3 panels for an ordinary strip, exactly 7 for an
/// extended Sunday strip. No other panel count is representable.
#[derive(Clone, Debug)]
pub enum Transcript {
    Normal([Panel; 3]),
    Sunday([Panel; 7]),
}

impl View for Transcript {
    type V = Seq<Seq<LineV>>;

    open spec fn view(&self) -> Seq<Seq<LineV>> {
        match self {
            Transcript::Normal(p) => panels_view(p@),
            Transcript::Sunday(p) => panels_view(p@),
        }
    }
}

/// The line that separates two panel source blocks.
pub open spec fn separator() -> Seq<char> {
    seq!['-', '-', '-']
}

fn separator_chars() -> (r: Vec<char>)
    ensures
        r@ == separator(),
{
    let r = vec!['-', '-', '-'];
    proof {
        assert(r@ =~= separator());
    }
    r
}

/// The retained lines of a raw line sequence: each trimmed, blank ones
/// dropped.
pub open spec fn content_lines_of(ls: Seq<Seq<char>>) -> Seq<Seq<char>>
    decreases ls.len(),
{
    if ls.len() == 0 {
        seq![]
    } else {
        let t = trim_spec(ls[0]);
        let rest = content_lines_of(ls.drop_first());
        if t.len() == 0 {
            rest
        } else {
            seq![t] + rest
        }
    }
}

/// The retained lines of the whole text: split at newlines, trimmed, blank
/// lines dropped.
pub open spec fn content_lines(s: Seq<char>) -> Seq<Seq<char>> {
    content_lines_of(split_on(s, '\n'))
}

/// The panel source blocks of the whole text: the retained lines, cut at
/// every separator line; a trailing block is always present.
pub open spec fn panel_groups(s: Seq<char>) -> Seq<Seq<Seq<char>>> {
    split_on(content_lines(s), separator())
}

/// Trim every raw line and drop the blank ones.
fn content_lines_exec(raw: &Vec<Vec<char>>) -> (r: Vec<Vec<char>>)
    ensures
        views_of(r@) == content_lines_of(views_of(raw@)),
{
    let ghost full = views_of(raw@);
    let mut r: Vec<Vec<char>> = Vec::new();
    let mut i: usize = 0;
    proof {
        assert(full.skip(0) =~= full);
        assert(views_of(r@) + content_lines_of(full) =~~= content_lines_of(full));
    }
    while i < raw.len()
        invariant
            i <= raw@.len(),
            full == views_of(raw@),
            content_lines_of(full) == views_of(r@) + content_lines_of(full.skip(i as int)),
        decreases raw@.len() - i,
    {
        let ghost pre = r@;
        proof {
            assert(full.skip(i as int)[0] == full[i as int]);
            assert(full.skip(i as int).drop_first() =~= full.skip(i + 1 as int));
        }
        let t = trim_line(&raw[i]);
        if t.len() > 0 {
            let ghost tv = t;
            r.push(t);
            proof {
                assert(r@ == pre.push(tv));
                assert(views_of(r@) =~= views_of(pre).push(tv@));
                assert(views_of(r@) + content_lines_of(full.skip(i + 1 as int)) =~~= views_of(
                    pre,
                ) + content_lines_of(full.skip(i as int)));
            }
        } else {
            proof {
                assert(views_of(r@) + content_lines_of(full.skip(i + 1 as int)) =~~= views_of(
                    pre,
                ) + content_lines_of(full.skip(i as int)));
            }
        }
        i = i + 1;
    }
    proof {
        assert(full.skip(full.len() as int) =~= Seq::<Seq<char>>::empty());
        assert(views_of(r@) + content_lines_of(full.skip(full.len() as int)) =~~= views_of(r@));
    }
    r
}

/// The views of a vector of panel source blocks.
pub open spec fn groups_view(gs: Seq<Vec<Vec<char>>>) -> Seq<Seq<Seq<char>>> {
    gs.map_values(|g: Vec<Vec<char>>| views_of(g@))
}

/// Cut the retained lines into panel source blocks at every separator line.
fn split_groups(lines: &Vec<Vec<char>>) -> (r: Vec<Vec<Vec<char>>>)
    ensures
        groups_view(r@) == split_on(views_of(lines@), separator()),
{
    let ghost full = views_of(lines@);
    let sep = separator_chars();
    let mut done: Vec<Vec<Vec<char>>> = Vec::new();
    let mut cur: Vec<Vec<char>> = Vec::new();
    let mut i: usize = 0;
    proof {
        assert(full.skip(0) =~= full);
        let rest = split_on(full, separator());
        lemma_split_on_len(full, separator());
        assert(groups_view(done@) + seq![views_of(cur@) + rest[0]] + rest.drop_first()
            =~~= rest);
    }
    while i < lines.len()
        invariant
            i <= lines@.len(),
            full == views_of(lines@),
            sep@ == separator(),
            split_on(full, separator()) == ({
                let rest = split_on(full.skip(i as int), separator());
                groups_view(done@) + seq![views_of(cur@) + rest[0]] + rest.drop_first()
            }),
        decreases lines@.len() - i,
    {
        let ghost pre_done = done@;
        let ghost pre_cur = cur@;
        let ghost rest = split_on(full.skip(i as int), separator());
        let ghost rest2 = split_on(full.skip(i + 1 as int), separator());
        proof {
            assert(full.skip(i as int)[0] == full[i as int]);
            assert(full.skip(i as int).drop_first() =~= full.skip(i + 1 as int));
            lemma_split_on_len(full.skip(i + 1 as int), separator());
        }
        if eq_chars(&lines[i], &sep) {
            let ghost pre_curv = cur;
            done.push(cur);
            cur = Vec::new();
            proof {
                assert(rest =~= seq![Seq::<Seq<char>>::empty()] + rest2);
                assert(done@ == pre_done.push(pre_curv));
                assert(groups_view(done@) =~= groups_view(pre_done).push(views_of(pre_cur)));
                assert(groups_view(done@) + seq![views_of(cur@) + rest2[0]] + rest2.drop_first()
                    =~~= groups_view(pre_done) + seq![views_of(pre_cur) + rest[0]]
                    + rest.drop_first());
            }
        } else {
            let ghost itemv = lines@[i as int];
            let item = clone_chars(&lines[i]);
            cur.push(item);
            proof {
                assert(rest =~= seq![seq![full[i as int]] + rest2[0]] + rest2.drop_first());
                assert(views_of(cur@) =~= views_of(pre_cur).push(full[i as int]));
                assert(groups_view(done@) + seq![views_of(cur@) + rest2[0]] + rest2.drop_first()
                    =~~= groups_view(pre_done) + seq![views_of(pre_cur) + rest[0]]
                    + rest.drop_first());
            }
        }
        i = i + 1;
    }
    let ghost pre_done = done@;
    let ghost pre_cur = cur@;
    let ghost pre_curv = cur;
    done.push(cur);
    proof {
        assert(full.skip(full.len() as int) =~= Seq::<Seq<char>>::empty());
        let rest = split_on(full.skip(full.len() as int), separator());
        assert(rest =~= seq![Seq::<Seq<char>>::empty()]);
        assert(done@ == pre_done.push(pre_curv));
        assert(groups_view(done@) =~= groups_view(pre_done).push(views_of(pre_cur)));
        assert(groups_view(done@) =~~= groups_view(pre_done) + seq![views_of(pre_cur) + rest[0]]
            + rest.drop_first());
    }
    done
}

/// What parsing one panel source block returns, with the advisory notices
/// raised along the way: markers and texts are consumed strictly in pairs,
/// and a marker with no following text line is a dangling speaker.
pub open spec fn panel_spec(ls: Seq<Seq<char>>) -> (Result<Seq<LineV>, ErrorV>, Seq<NoticeV>)
    decreases ls.len(),
{
    if ls.len() == 0 {
        (Result::Ok(seq![]), seq![])
    } else {
        match classify_spec(ls[0]) {
            Result::Err(e) => (Result::Err(e), seq![]),
            Result::Ok(sp) => {
                let ns0 = match notice_spec(sp) {
                    Option::Some(n) => seq![n],
                    Option::None => seq![],
                };
                if ls.len() == 1 {
                    (Result::Err(ErrorV::DanglingSpeaker(ls[0])), ns0)
                } else {
                    let line = LineV { speaker: sp, text: normalized(ls[1]) };
                    let rest = panel_spec(ls.skip(2));
                    (
                        match rest.0 {
                            Result::Ok(lvs) => Result::Ok(seq![line] + lvs),
                            Result::Err(e) => Result::Err(e),
                        },
                        ns0 + rest.1,
                    )
                }
            },
        }
    }
}

/// What parsing every panel source block in order returns: the first
/// failure aborts, keeping the notices raised before it.
pub open spec fn panels_spec(gs: Seq<Seq<Seq<char>>>) -> (
    Result<Seq<Seq<LineV>>, ErrorV>,
    Seq<NoticeV>,
)
    decreases gs.len(),
{
    if gs.len() == 0 {
        (Result::Ok(seq![]), seq![])
    } else {
        let first = panel_spec(gs[0]);
        match first.0 {
            Result::Err(e) => (Result::Err(e), first.1),
            Result::Ok(lv) => {
                let rest = panels_spec(gs.drop_first());
                (
                    match rest.0 {
                        Result::Ok(ps) => Result::Ok(seq![lv] + ps),
                        Result::Err(e) => Result::Err(e),
                    },
                    first.1 + rest.1,
                )
            },
        }
    }
}

/// What parsing the whole text returns: an empty or all-blank text is
/// rejected, the panel blocks are parsed in order, and the panel count must
/// be exactly 3 or exactly 7.
pub open spec fn parse_spec(s: Seq<char>) -> (Result<Seq<Seq<LineV>>, ErrorV>, Seq<NoticeV>) {
    let ls = content_lines(s);
    if ls.len() == 0 {
        (Result::Err(ErrorV::EmptyInput), seq![])
    } else {
        let pr = panels_spec(split_on(ls, separator()));
        match pr.0 {
            Result::Err(e) => (Result::Err(e), pr.1),
            Result::Ok(ps) => if ps.len() == 3 || ps.len() == 7 {
                (Result::Ok(ps), pr.1)
            } else {
                (Result::Err(ErrorV::InvalidPanelCount(ps.len() as int)), pr.1)
            },
        }
    }
}

/// The models of a vector of notices.
pub open spec fn notices_view(ns: Seq<Notice>) -> Seq<NoticeV> {
    ns.map_values(|n: Notice| n@)
}

/// What one parse call hands back: the transcript or the failure, and the
/// advisory notices raised before the parse finished or failed.
pub struct ParseOutcome {
    pub result: Result<Transcript, ParseError>,
    pub notices: Vec<Notice>,
}

/// Whether an executable parse outcome realizes the spec-level one for the
/// text `s`.
pub open spec fn outcome_matches(r: ParseOutcome, s: Seq<char>) -> bool {
    &&& notices_view(r.notices@) == parse_spec(s).1
    &&& match (r.result, parse_spec(s).0) {
        (Result::Ok(t), Result::Ok(ps)) => t@ == ps,
        (Result::Err(e), Result::Err(ev)) => e@ == ev,
        _ => false,
    }
}


/// Parse one panel source block: its lines are consumed strictly in pairs,
/// the marker line classified and the text line normalized. Notices raised
/// by classification are appended to `notices`.
fn parse_panel(g: &Vec<Vec<char>>, notices: &mut Vec<Notice>) -> (r: Result<Panel, ParseError>)
    ensures
        notices_view(final(notices)@) == notices_view(old(notices)@) + panel_spec(
            views_of(g@),
        ).1,
        match (r, panel_spec(views_of(g@)).0) {
            (Result::Ok(p), Result::Ok(lv)) => p@ == lv,
            (Result::Err(e), Result::Err(ev)) => e@ == ev,
            _ => false,
        },
{
    let ghost l = views_of(g@);
    let mut lines: Vec<Line> = Vec::new();
    let mut i: usize = 0;
    let ghost mut acc_ns: Seq<NoticeV> = seq![];
    proof {
        assert(l.skip(0) =~= l);
        assert(notices_view(notices@) =~= notices_view(old(notices)@) + acc_ns);
        assert(acc_ns + panel_spec(l).1 =~= panel_spec(l).1);
        match panel_spec(l).0 {
            Result::Ok(lvs) => {
                assert(lines_view(lines@) + lvs =~= lvs);
            },
            Result::Err(e) => {},
        }
    }
    while i < g.len()
        invariant
            i <= g@.len(),
            l == views_of(g@),
            notices_view(notices@) == notices_view(old(notices)@) + acc_ns,
            panel_spec(l).1 == acc_ns + panel_spec(l.skip(i as int)).1,
            panel_spec(l).0 == (match panel_spec(l.skip(i as int)).0 {
                Result::Ok(lvs) => Result::Ok(lines_view(lines@) + lvs),
                Result::Err(e) => Result::Err(e),
            }),
        decreases g@.len() - i,
    {
        proof {
            assert(l.skip(i as int)[0] == l[i as int]);
        }
        match classify(&g[i]) {
            Result::Err(e) => {
                return Result::Err(e);
            },
            Result::Ok(sp) => {
                let ghost spv = sp@;
                let ghost ns0: Seq<NoticeV> = match notice_spec(spv) {
                    Option::Some(n) => seq![n],
                    Option::None => seq![],
                };
                let ghost pre_acc = acc_ns;
                match speaker_notice(&sp) {
                    Option::Some(n) => {
                        let ghost nv = n@;
                        let ghost pre_not = notices@;
                        notices.push(n);
                        proof {
                            acc_ns = acc_ns + seq![nv];
                            assert(notices_view(notices@) =~= notices_view(pre_not).push(nv));
                            assert(notices_view(notices@) =~= notices_view(old(notices)@)
                                + acc_ns);
                        }
                    },
                    Option::None => {
                    },
                }
                proof {
                    assert(acc_ns =~= pre_acc + ns0);
                }
                if i + 1 == g.len() {
                    let msg = string_from_chars(&g[i]);
                    proof {
                        assert(l.skip(i as int).len() == 1);
                        assert(panel_spec(l).1 =~= acc_ns);
                    }
                    return Result::Err(ParseError::DanglingSpeaker(msg));
                }
                let text = format_transcript_text(&g[i + 1]);
                let line = Line { speaker: sp, text: string_from_chars(&text) };
                let ghost linev = LineV { speaker: spv, text: normalized(l[i + 1 as int]) };
                let ghost pre_lines = lines@;
                lines.push(line);
                proof {
                    assert(l.skip(i as int)[1] == l[i + 1 as int]);
                    assert(l.skip(i as int).skip(2) =~= l.skip(i + 2 as int));
                    assert(line@ == linev);
                    assert(lines_view(lines@) =~= lines_view(pre_lines).push(linev));
                    assert(panel_spec(l).1 =~= acc_ns + panel_spec(l.skip(i + 2 as int)).1);
                    match panel_spec(l.skip(i + 2 as int)).0 {
                        Result::Ok(lvs) => {
                            assert(lines_view(pre_lines) + (seq![linev] + lvs)
                                =~= lines_view(lines@) + lvs);
                        },
                        Result::Err(e) => {},
                    }
                }
                i = i + 2;
            },
        }
    }
    proof {
        assert(l.skip(l.len() as int) =~= Seq::<Seq<char>>::empty());
        match panel_spec(l).0 {
            Result::Ok(lvs) => {
                assert(lines_view(lines@) + Seq::<LineV>::empty() =~= lines_view(lines@));
            },
            Result::Err(e) => {},
        }
    }
    Result::Ok(Panel { lines })
}

impl Transcript {
    /// Parse the full text of a transcript source. The outcome holds the
    /// validated transcript or the first failure, together with every
    /// advisory notice raised before the parse finished or failed.
    pub fn parse(text: &str) -> (r: ParseOutcome)
        ensures
            outcome_matches(r, text@),
    {
        let chars = chars_of(text);
        let raw = split_newlines(&chars);
        let lines = content_lines_exec(&raw);
        let ghost cl = content_lines(text@);
        proof {
            assert(views_of(lines@) == cl);
        }
        if lines.len() == 0 {
            let r = ParseOutcome {
                result: Result::Err(ParseError::EmptyInput),
                notices: Vec::new(),
            };
            proof {
                assert(cl.len() == 0);
                assert(notices_view(r.notices@) =~= parse_spec(text@).1);
            }
            return r;
        }
        proof {
            assert(cl.len() > 0);
        }
        let groups = split_groups(&lines);
        let ghost gs = split_on(cl, separator());
        let mut notices: Vec<Notice> = Vec::new();
        let mut panels: Vec<Panel> = Vec::new();
        let mut i: usize = 0;
        let ghost mut acc_ns: Seq<NoticeV> = seq![];
        proof {
            assert(gs.skip(0) =~= gs);
            assert(notices_view(notices@) =~= acc_ns);
            assert(acc_ns + panels_spec(gs).1 =~= panels_spec(gs).1);
            match panels_spec(gs).0 {
                Result::Ok(ps) => {
                    assert(panels_view(panels@) + ps =~= ps);
                },
                Result::Err(e) => {},
            }
        }
        while i < groups.len()
            invariant
                i <= groups@.len(),
                cl == content_lines(text@),
                cl.len() > 0,
                gs == split_on(cl, separator()),
                groups_view(groups@) == gs,
                notices_view(notices@) == acc_ns,
                panels_spec(gs).1 == acc_ns + panels_spec(gs.skip(i as int)).1,
                panels_spec(gs).0 == (match panels_spec(gs.skip(i as int)).0 {
                    Result::Ok(ps) => Result::Ok(panels_view(panels@) + ps),
                    Result::Err(e) => Result::Err(e),
                }),
            decreases groups@.len() - i,
        {
            proof {
                assert(gs.skip(i as int)[0] == gs[i as int]);
                assert(gs.skip(i as int).drop_first() =~= gs.skip(i + 1 as int));
            }
            let pr = parse_panel(&groups[i], &mut notices);
            proof {
                acc_ns = acc_ns + panel_spec(gs[i as int]).1;
                assert(notices_view(notices@) =~= acc_ns);
            }
            match pr {
                Result::Err(e) => {
                    let r = ParseOutcome { result: Result::Err(e), notices };
                    proof {
                        assert(panels_spec(gs).1 =~= acc_ns);
                    }
                    return r;
                },
                Result::Ok(p) => {
                    let ghost pv = p@;
                    let ghost pre_panels = panels@;
                    panels.push(p);
                    proof {
                        assert(panels_view(panels@) =~= panels_view(pre_panels).push(pv));
                        assert(panels_spec(gs).1 =~= acc_ns + panels_spec(
                            gs.skip(i + 1 as int),
                        ).1);
                        match panels_spec(gs.skip(i + 1 as int)).0 {
                            Result::Ok(ps) => {
                                assert(panels_view(pre_panels) + (seq![pv] + ps)
                                    =~= panels_view(panels@) + ps);
                            },
                            Result::Err(e) => {},
                        }
                    }
                },
            }
            i = i + 1;
        }
        proof {
            assert(gs.skip(gs.len() as int) =~= Seq::<Seq<Seq<char>>>::empty());
            match panels_spec(gs).0 {
                Result::Ok(ps) => {
                    assert(panels_view(panels@) + Seq::<Seq<LineV>>::empty() =~= panels_view(
                        panels@,
                    ));
                },
                Result::Err(e) => {},
            }
        }
        let ghost final_panels = panels@;
        if panels.len() == 3 {
            let p0 = panels.remove(0);
            let p1 = panels.remove(0);
            let p2 = panels.remove(0);
            let t = Transcript::Normal([p0, p1, p2]);
            proof {
                assert(t@ =~~= panels_view(final_panels));
            }
            ParseOutcome { result: Result::Ok(t), notices }
        } else if panels.len() == 7 {
            let p0 = panels.remove(0);
            let p1 = panels.remove(0);
            let p2 = panels.remove(0);
            let p3 = panels.remove(0);
            let p4 = panels.remove(0);
            let p5 = panels.remove(0);
            let p6 = panels.remove(0);
            let t = Transcript::Sunday([p0, p1, p2, p3, p4, p5, p6]);
            proof {
                assert(t@ =~~= panels_view(final_panels));
            }
            ParseOutcome { result: Result::Ok(t), notices }
        } else {
            ParseOutcome {
                result: Result::Err(ParseError::InvalidPanelCount(panels.len())),
                notices,
            }
        }
    }

    /// The panels of the strip, in reading order, whichever variant holds
    /// them.
    pub fn panels(&self) -> (r: &[Panel])
        ensures
            panels_view(r@) == self@,
    {
        match self {
            Transcript::Normal(p) => p.as_slice(),
            Transcript::Sunday(p) => p.as_slice(),
        }
    }
}


/// The (name, uncommon) pairs of the character lines of one panel, in line
/// order; sound and caption lines contribute nothing.
pub open spec fn panel_names(ls: Seq<LineV>) -> Seq<(Seq<char>, bool)>
    decreases ls.len(),
{
    if ls.len() == 0 {
        seq![]
    } else {
        let rest = panel_names(ls.drop_first());
        match ls[0].speaker {
            SpeakerV::Character { name, uncommon } => seq![(name, uncommon)] + rest,
            _ => rest,
        }
    }
}

/// The (name, uncommon) pairs of every character line of a panel sequence,
/// in panel-then-line order, duplicates preserved.
pub open spec fn names_spec(ps: Seq<Seq<LineV>>) -> Seq<(Seq<char>, bool)>
    decreases ps.len(),
{
    if ps.len() == 0 {
        seq![]
    } else {
        panel_names(ps[0]) + names_spec(ps.drop_first())
    }
}

/// The models of a vector of (name, uncommon) pairs.
pub open spec fn pairs_view(v: Seq<(String, bool)>) -> Seq<(Seq<char>, bool)> {
    v.map_values(|p: (String, bool)| (p.0@, p.1))
}

pub proof fn lemma_panel_names_append(a: Seq<LineV>, b: Seq<LineV>)
    ensures
        panel_names(a + b) == panel_names(a) + panel_names(b),
    decreases a.len(),
{
    if a.len() == 0 {
        assert(a + b =~= b);
        assert(panel_names(a) + panel_names(b) =~= panel_names(b));
    } else {
        assert((a + b).drop_first() =~= a.drop_first() + b);
        assert((a + b)[0] == a[0]);
        lemma_panel_names_append(a.drop_first(), b);
        match a[0].speaker {
            SpeakerV::Character { name, uncommon } => {
                assert(seq![(name, uncommon)] + (panel_names(a.drop_first()) + panel_names(b))
                    =~= (seq![(name, uncommon)] + panel_names(a.drop_first())) + panel_names(b));
            },
            _ => {},
        }
    }
}

pub proof fn lemma_names_append(a: Seq<Seq<LineV>>, b: Seq<Seq<LineV>>)
    ensures
        names_spec(a + b) == names_spec(a) + names_spec(b),
    decreases a.len(),
{
    if a.len() == 0 {
        assert(a + b =~= b);
        assert(names_spec(a) + names_spec(b) =~= names_spec(b));
    } else {
        assert((a + b).drop_first() =~= a.drop_first() + b);
        assert((a + b)[0] == a[0]);
        lemma_names_append(a.drop_first(), b);
        assert(panel_names(a[0]) + (names_spec(a.drop_first()) + names_spec(b)) =~= (panel_names(
            a[0],
        ) + names_spec(a.drop_first())) + names_spec(b));
    }
}

impl Transcript {
    /// The (name, uncommon) pair of every character line, in panel-then-line
    /// order; sound and caption lines are skipped and duplicates are kept.
    pub fn names(&self) -> (r: Vec<(String, bool)>)
        ensures
            pairs_view(r@) == names_spec(self@),
    {
        let ps = self.panels();
        let ghost pv = panels_view(ps@);
        let mut out: Vec<(String, bool)> = Vec::new();
        let mut i: usize = 0;
        proof {
            assert(pv.take(0) =~= Seq::<Seq<LineV>>::empty());
            assert(pairs_view(out@) =~= names_spec(pv.take(0)));
        }
        while i < ps.len()
            invariant
                i <= ps@.len(),
                pv == panels_view(ps@),
                pv == self@,
                pairs_view(out@) == names_spec(pv.take(i as int)),
            decreases ps@.len() - i,
        {
            let panel = vstd::slice::slice_index_get(ps, i);
            let ghost lv = pv[i as int];
            proof {
                assert(lv == panel@);
            }
            let mut j: usize = 0;
            proof {
                assert(lv.take(0) =~= Seq::<LineV>::empty());
                assert(pairs_view(out@) + panel_names(lv.take(0)) =~= pairs_view(out@));
            }
            while j < panel.lines.len()
                invariant
                    j <= panel.lines@.len(),
                    lv == panel@,
                    0 <= i < pv.len(),
                    pv == panels_view(ps@),
                    pairs_view(out@) == names_spec(pv.take(i as int)) + panel_names(
                        lv.take(j as int),
                    ),
                decreases panel.lines@.len() - j,
            {
                let ghost pre_out = out@;
                let ghost x = lv[j as int];
                proof {
                    assert(x == panel.lines@[j as int]@);
                    assert(lv.take(j + 1 as int) =~= lv.take(j as int) + seq![x]);
                    lemma_panel_names_append(lv.take(j as int), seq![x]);
                    assert(seq![x].drop_first() =~= Seq::<LineV>::empty());
                    assert(panel_names(Seq::<LineV>::empty()) =~= Seq::<(
                        Seq<char>,
                        bool,
                    )>::empty());
                }
                match &panel.lines[j].speaker {
                    Speaker::Character { name, uncommon } => {
                        out.push((name.clone(), *uncommon));
                        proof {
                            assert(pairs_view(out@) =~= pairs_view(pre_out).push(
                                (name@, *uncommon),
                            ));
                            assert(x.speaker == (SpeakerV::Character {
                                name: name@,
                                uncommon: *uncommon,
                            }));
                            assert(panel_names(seq![x]) =~= seq![(name@, *uncommon)]);
                            assert(pairs_view(out@) =~= names_spec(pv.take(i as int))
                                + panel_names(lv.take(j + 1 as int)));
                        }
                    },
                    _ => {
                        proof {
                            assert(panel_names(seq![x]) =~= Seq::<(Seq<char>, bool)>::empty());
                            assert(pairs_view(out@) =~= names_spec(pv.take(i as int))
                                + panel_names(lv.take(j + 1 as int)));
                        }
                    },
                }
                j = j + 1;
            }
            proof {
                assert(lv.take(lv.len() as int) =~= lv);
                assert(pv.take(i + 1 as int) =~= pv.take(i as int) + seq![pv[i as int]]);
                lemma_names_append(pv.take(i as int), seq![pv[i as int]]);
                assert(seq![pv[i as int]].drop_first() =~= Seq::<Seq<LineV>>::empty());
                assert(names_spec(Seq::<Seq<LineV>>::empty()) =~= Seq::<(
                    Seq<char>,
                    bool,
                )>::empty());
                assert(seq![pv[i as int]][0] == pv[i as int]);
                assert(names_spec(seq![pv[i as int]]) =~= panel_names(pv[i as int]));
            }
            i = i + 1;
        }
        proof {
            assert(pv.take(pv.len() as int) =~= pv);
        }
        out
    }
}

} // verus!
