//! The skills of a character: the names between the two markers of the
//! skill section, each with the two bytes of points behind it.

use crate::bytes::{contains_bytes, copy_range, occurs_in, u16_from_le};
use crate::error::SaveError;
use crate::markers::{
    base_skill_pattern, base_skill_pattern_text, legend_prefix, legend_skill_pattern,
    legend_skill_pattern_text, skills_end, skills_end_marker, skills_start, skills_start_marker,
    POINTS_WIDTH,
};
use crate::scanner::{
    find_first, find_first_spec, first_match, get_index_from_sequence, index_or_zero,
    lemma_first_match_is_lowest, matches_at,
};
use crate::struct_data::{SkillItem, SkillItemView, Skills, SkillsView};
use crate::text::{
    find_pattern_matches, names_result_view, pattern_matches, string_from_utf8_lossy, utf8_lossy,
};
use vstd::prelude::*;
use vstd::slice::{slice_subrange, slice_to_vec};
use vstd::string::*;

verus! {

/// The skill section: from the byte in front of its opening marker up to its
/// closing marker. There is none where a marker is absent, or where the
/// opening marker stands at the very start of the buffer.
pub open spec fn skill_region(content: Seq<u8>) -> Option<Seq<u8>> {
    let start = index_or_zero(find_first_spec(content, 0, skills_start_marker(), true));
    let end = index_or_zero(find_first_spec(content, start, skills_end_marker(), true));
    if start == 0 || end == 0 {
        None
    } else {
        Some(content.subrange(start - 1, end))
    }
}

/// A skill name that is no legend skill: it does not hold "LP_".
pub open spec fn is_base_name(name: Seq<u8>) -> bool {
    !occurs_in(legend_prefix(), name)
}

/// The base skills among the matches of the skill pattern.
pub open spec fn base_names(matches: Seq<Seq<u8>>) -> Seq<Seq<u8>> {
    matches.filter(|name: Seq<u8>| is_base_name(name))
}

/// What `find_base_skill_matches` returns.
pub open spec fn base_skill_matches(region: Seq<u8>) -> Result<Seq<Seq<u8>>, SaveError> {
    match pattern_matches(base_skill_pattern(), region) {
        Ok(matches) => Ok(base_names(matches)),
        Err(error) => Err(error),
    }
}

/// What `find_legend_skill_matches` returns.
pub open spec fn legend_skill_matches(region: Seq<u8>) -> Result<Seq<Seq<u8>>, SaveError> {
    pattern_matches(legend_skill_pattern(), region)
}

/// The skill whose name stands at `at`.
pub open spec fn skill_at(data: Seq<u8>, name: Seq<u8>, at: int) -> SkillItemView {
    SkillItemView {
        name: utf8_lossy(name),
        index: at,
        size: name.len() as int,
        sgd_data: name,
        points_data: data.subrange(at + name.len(), at + name.len() + POINTS_WIDTH),
        points_value: u16_from_le(
            data.subrange(at + name.len(), at + name.len() + POINTS_WIDTH),
        ),
    }
}

/// The skill describes the buffer: its name stands in the buffer at its
/// offset, and its points are what the two bytes behind the name hold.
pub open spec fn skill_lies_in(skill: SkillItemView, content: Seq<u8>) -> bool {
    &&& matches_at(content, skill.index, skill.sgd_data)
    &&& skill.size == skill.sgd_data.len()
    &&& skill.index + skill.size + POINTS_WIDTH <= content.len()
    &&& skill.points_data =~= content.subrange(
        skill.index + skill.size,
        skill.index + skill.size + POINTS_WIDTH,
    )
    &&& skill.points_value == u16_from_le(skill.points_data)
}

/// Every one of the skills describes the buffer.
pub open spec fn skills_lie_in(skills: Seq<SkillItemView>, content: Seq<u8>) -> bool {
    forall|k: int| 0 <= k < skills.len() ==> skill_lies_in(#[trigger] skills[k], content)
}

/// The skills with the given names, each looked up in the whole buffer from
/// where the one before it was found. There are none if a name cannot be
/// found or if the buffer ends before the points of a skill.
pub open spec fn located_skills(data: Seq<u8>, names: Seq<Seq<u8>>, from: int) -> Option<
    Seq<SkillItemView>,
>
    decreases names.len(),
{
    if names.len() == 0 {
        Some(Seq::empty())
    } else {
        match first_match(data, from, names[0]) {
            Some(at) => if at + names[0].len() + POINTS_WIDTH > data.len() {
                None
            } else {
                match located_skills(data, names.drop_first(), at) {
                    Some(rest) => Some(seq![skill_at(data, names[0], at)] + rest),
                    None => None,
                }
            },
            None => None,
        }
    }
}

/// What `analize_skill_data` returns.
pub open spec fn skill_data(data: Seq<u8>, base: Seq<Seq<u8>>, legend: Seq<Seq<u8>>) -> Result<
    SkillsView,
    SaveError,
> {
    match located_skills(data, base, 0) {
        Some(base_skills) => match located_skills(data, legend, 0) {
            Some(legend_skills) => Ok(SkillsView { base_skills, legend_skills }),
            None => Err(SaveError::StructureMismatch),
        },
        None => Err(SaveError::StructureMismatch),
    }
}

/// The skills of a buffer: the names of the skill section, looked up again in
/// the whole buffer. A buffer without a skill section, or with a skill whose
/// points lie behind its end, does not have the layout of a save; a skill
/// section without a base skill is an error of its own.
pub open spec fn skills_of(content: Seq<u8>) -> Result<SkillsView, SaveError> {
    match skill_region(content) {
        None => Err(SaveError::StructureMismatch),
        Some(region) => match base_skill_matches(region) {
            Err(error) => Err(error),
            Ok(base) => match legend_skill_matches(region) {
                Err(error) => Err(error),
                Ok(legend) => if base.len() == 0 {
                    Err(SaveError::NoSkillValidated)
                } else {
                    skill_data(content, base, legend)
                },
            },
        },
    }
}

/// A result of skills as a mathematical value.
pub open spec fn skills_result_view(result: Result<Skills, SaveError>) -> Result<
    SkillsView,
    SaveError,
> {
    match result {
        Ok(skills) => Ok(skills@),
        Err(error) => Err(error),
    }
}

/// As many skills are located as there are names, and each lies inside the
/// buffer with its points.
pub proof fn lemma_located_skills(data: Seq<u8>, names: Seq<Seq<u8>>, from: int)
    requires
        0 <= from,
    ensures
        located_skills(data, names, from) matches Some(skills) ==> {
            &&& skills.len() == names.len()
            &&& forall|k: int|
                0 <= k < skills.len() ==> {
                    &&& from <= (#[trigger] skills[k]).index
                    &&& skill_lies_in(skills[k], data)
                    &&& skills[k].points_data.len() == POINTS_WIDTH
                    &&& skills[k].sgd_data == names[k]
                }
        },
    decreases names.len(),
{
    if names.len() > 0 {
        lemma_first_match_is_lowest(data, from, names[0]);
        match first_match(data, from, names[0]) {
            Some(at) => {
                if at + names[0].len() + POINTS_WIDTH <= data.len() {
                    lemma_located_skills(data, names.drop_first(), at);
                    match located_skills(data, names.drop_first(), at) {
                        Some(rest) => {
                            let skills = seq![skill_at(data, names[0], at)] + rest;
                            assert forall|k: int| 0 <= k < skills.len() implies {
                                &&& from <= (#[trigger] skills[k]).index
                                &&& skill_lies_in(skills[k], data)
                                &&& skills[k].points_data.len() == POINTS_WIDTH
                                &&& skills[k].sgd_data == names[k]
                            } by {
                                if k > 0 {
                                    assert(skills[k] == rest[k - 1]);
                                    assert(names[k] == names.drop_first()[k - 1]);
                                }
                            }
                        },
                        None => {},
                    }
                }
            },
            None => {},
        }
    }
}

/// The skills of a buffer, where there are any, hold a base skill, and each
/// of them describes the buffer.
pub proof fn lemma_skills_of_has_base_skill(content: Seq<u8>)
    ensures
        skills_of(content) matches Ok(skills) ==> {
            &&& skills.base_skills.len() > 0
            &&& skills_lie_in(skills.base_skills, content)
            &&& skills_lie_in(skills.legend_skills, content)
        },
{
    match skill_region(content) {
        Some(region) => match base_skill_matches(region) {
            Ok(base) => match legend_skill_matches(region) {
                Ok(legend) => {
                    lemma_located_skills(content, base, 0);
                    lemma_located_skills(content, legend, 0);
                },
                Err(_) => {},
            },
            Err(_) => {},
        },
        None => {},
    }
}

/// What follows the search for skill names: keeps the names that are no
/// legend skills.
pub fn keep_base_skills(matches: &Vec<Vec<u8>>) -> (names: Vec<Vec<u8>>)
    ensures
        names.deep_view() == base_names(matches.deep_view()),
{
    let ghost all = matches.deep_view();
    let mut names: Vec<Vec<u8>> = Vec::new();
    let mut i: usize = 0;
    proof {
        assert(all.take(0) =~= Seq::<Seq<u8>>::empty());
        assert(base_names(Seq::<Seq<u8>>::empty()) =~= Seq::<Seq<u8>>::empty()) by {
            reveal(Seq::filter);
        }
        assert(names.deep_view() =~= Seq::<Seq<u8>>::empty());
    }
    while i < matches.len()
        invariant
            i <= matches.len(),
            all == matches.deep_view(),
            names.deep_view() == base_names(all.take(i as int)),
        decreases matches.len() - i,
    {
        let name: &Vec<u8> = &matches[i];
        let ghost before = names.deep_view();
        proof {
            assert(all[i as int] == name@);
            assert(all.take(i + 1) =~= all.take(i as int).push(name@));
            all.take(i as int).lemma_filter_push(name@, |name: Seq<u8>| is_base_name(name));
        }
        if !contains_bytes(name.as_slice(), "LP_".as_bytes()) {
            names.push(slice_to_vec(name.as_slice()));
            assert(names.deep_view() =~= before.push(name@));
        }
        i += 1;
    }
    assert(all.take(matches.len() as int) =~= all);
    names
}

/// Finds the names of the base skills in the skill section.
pub fn find_base_skill_matches(content: &[u8]) -> (result: Result<Vec<Vec<u8>>, SaveError>)
    ensures
        names_result_view(result) == base_skill_matches(content@),
{
    match find_pattern_matches(base_skill_pattern_text(), content) {
        Ok(matches) => Ok(keep_base_skills(&matches)),
        Err(error) => Err(error),
    }
}

/// Finds the names of the legend skills in the skill section.
pub fn find_legend_skill_matches(content: &[u8]) -> (result: Result<Vec<Vec<u8>>, SaveError>)
    ensures
        names_result_view(result) == legend_skill_matches(content@),
{
    find_pattern_matches(legend_skill_pattern_text(), content)
}

/// Looks up the skills with the given names, one after the other.
pub fn locate_skills(data: &[u8], names: &Vec<Vec<u8>>) -> (skills: Option<Vec<SkillItem>>)
    ensures
        match skills {
            Some(found) => located_skills(data@, names.deep_view(), 0) == Some(found.deep_view()),
            None => located_skills(data@, names.deep_view(), 0) is None,
        },
{
    let ghost all = names.deep_view();
    let mut skills: Vec<SkillItem> = Vec::new();
    let mut last_index: usize = 0;
    let mut i: usize = 0;
    proof {
        assert(all.skip(0) =~= all);
        assert(skills.deep_view() =~= Seq::<SkillItemView>::empty());
        lemma_skills_then_nothing(located_skills(data@, all, 0));
    }
    while i < names.len()
        invariant
            i <= names.len(),
            all == names.deep_view(),
            located_skills(data@, all, 0) == skills_then(
                skills.deep_view(),
                located_skills(data@, all.skip(i as int), last_index as int),
            ),
        decreases names.len() - i,
    {
        let ghost rest = all.skip(i as int);
        let ghost before = skills.deep_view();
        proof {
            assert(rest[0] == names@[i as int]@);
            assert(rest.drop_first() =~= all.skip(i + 1));
            lemma_first_match_is_lowest(data@, last_index as int, rest[0]);
            assert(data@.len() == data.len());
        }
        let name: &Vec<u8> = &names[i];
        match find_first(data, last_index, name.as_slice(), true) {
            None => {
                return None;
            },
            Some(index) => {
                if POINTS_WIDTH > data.len() - index - name.len() {
                    return None;
                }
                let points: Vec<u8> = copy_range(
                    data,
                    index + name.len(),
                    index + name.len() + POINTS_WIDTH,
                );
                let skill: SkillItem = SkillItem::new(
                    string_from_utf8_lossy(name.as_slice()),
                    index,
                    name.len(),
                    slice_to_vec(name.as_slice()),
                    points,
                );
                proof {
                    lemma_skills_then_then(
                        before,
                        seq![skill@],
                        located_skills(data@, all.skip(i + 1), index as int),
                    );
                }
                skills.push(skill);
                assert(skills.deep_view() =~= before + seq![
                    skill_at(data@, rest[0], index as int),
                ]);
                last_index = index;
            },
        }
        i += 1;
    }
    proof {
        assert(all.skip(names.len() as int) =~= Seq::<Seq<u8>>::empty());
        assert(skills.deep_view() + Seq::<SkillItemView>::empty() =~= skills.deep_view());
    }
    Some(skills)
}

/// Skills found so far, in front of what the rest of the names yields.
pub open spec fn skills_then(found: Seq<SkillItemView>, rest: Option<Seq<SkillItemView>>)
    -> Option<Seq<SkillItemView>> {
    match rest {
        Some(more) => Some(found + more),
        None => None,
    }
}

/// Skills in front of skills in front of a rest.
pub proof fn lemma_skills_then_then(
    found: Seq<SkillItemView>,
    next: Seq<SkillItemView>,
    rest: Option<Seq<SkillItemView>>,
)
    ensures
        skills_then(found, skills_then(next, rest)) == skills_then(found + next, rest),
{
    match rest {
        Some(more) => {
            assert(found + (next + more) =~= (found + next) + more);
        },
        None => {},
    }
}

/// No skills in front of a rest are the rest.
pub proof fn lemma_skills_then_nothing(rest: Option<Seq<SkillItemView>>)
    ensures
        skills_then(Seq::empty(), rest) == rest,
{
    match rest {
        Some(more) => {
            assert(Seq::<SkillItemView>::empty() + more =~= more);
        },
        None => {},
    }
}

/// Looks up the base skills and the legend skills with the given names in
/// `data` and reads the points of each. The search for a name starts where
/// the skill before it was found.
pub fn analize_skill_data(
    data: &[u8],
    base_matches: &Vec<Vec<u8>>,
    legend_matches: &Vec<Vec<u8>>,
) -> (result: Result<Skills, SaveError>)
    ensures
        skills_result_view(result) == skill_data(
            data@,
            base_matches.deep_view(),
            legend_matches.deep_view(),
        ),
{
    match locate_skills(data, base_matches) {
        Some(base_skills) => match locate_skills(data, legend_matches) {
            Some(legend_skills) => Ok(Skills::new(base_skills, legend_skills)),
            None => Err(SaveError::StructureMismatch),
        },
        None => Err(SaveError::StructureMismatch),
    }
}

/// Finds the skills of a buffer. Success always comes with at least one
/// base skill.
pub fn load_skills(content: &[u8]) -> (result: Result<Skills, SaveError>)
    ensures
        skills_result_view(result) == skills_of(content@),
        result matches Ok(skills) ==> {
            &&& skills.base_skills@.len() > 0
            &&& skills_lie_in(skills@.base_skills, content@)
            &&& skills_lie_in(skills@.legend_skills, content@)
        },
{
    proof {
        lemma_skills_of_has_base_skill(content@);
    }
    let skill_start_index: usize = get_index_from_sequence(content, 0, skills_start(), true);
    let skill_end_index: usize = get_index_from_sequence(
        content,
        skill_start_index,
        skills_end(),
        true,
    );
    if skill_start_index == 0 || skill_end_index == 0 {
        return Err(SaveError::StructureMismatch);
    }
    proof {
        lemma_first_match_is_lowest(content@, skill_start_index as int, skills_end_marker());
    }
    let region: &[u8] = slice_subrange(content, skill_start_index - 1, skill_end_index);
    let base_skills: Vec<Vec<u8>> = match find_base_skill_matches(region) {
        Ok(names) => names,
        Err(error) => {
            return Err(error);
        },
    };
    let legend_skills: Vec<Vec<u8>> = match find_legend_skill_matches(region) {
        Ok(names) => names,
        Err(error) => {
            return Err(error);
        },
    };
    if base_skills.len() == 0 {
        return Err(SaveError::NoSkillValidated);
    }
    proof {
        lemma_located_skills(content@, base_skills.deep_view(), 0);
    }
    analize_skill_data(content, &base_skills, &legend_skills)
}

} // verus!
