//! Finds Solidity source embedded in C++ contract files.
//!
//! A block starts with `SOLIDITY(ContractName, R"""(` and ends with the next `)""")`.

use vstd::prelude::*;
use vstd::string::*;

verus! {

/// The regular expression of an embedded block: the first group is the contract name, the
/// second the Solidity source, which runs no further than the first closing marker, so
/// that each block of a file is a match of its own.
pub open spec fn solidity_block_pattern() -> Seq<char> {
    "SOLIDITY\\(([\\w_]+),\\s*R\"\"\"\\(((.|\\n)*?)\\)\"\"\"\\)"@
}

/// One block of Solidity source found in a C++ file.
#[derive(Debug)]
pub struct SolidityFromCpp {
    pub contract_name: String,
    pub solidity_code: String,
}

/// What a block holds, as texts.
pub struct SolidityBlock {
    pub contract_name: Seq<char>,
    pub solidity_code: Seq<char>,
}

impl View for SolidityFromCpp {
    type V = SolidityBlock;

    open spec fn view(&self) -> SolidityBlock {
        SolidityBlock { contract_name: self.contract_name@, solidity_code: self.solidity_code@ }
    }
}

/// What the `regex` crate finds for `pattern` in `haystack`: `None` where the pattern does
/// not compile; else, for each match that `captures_iter` yields, in order, the text of
/// each of its groups (group 0 is the whole match), `None` for a group that took no part.
pub uninterp spec fn regex_captures(pattern: Seq<char>, haystack: Seq<char>) -> Option<
    Seq<Seq<Option<Seq<char>>>>,
>;

/// The texts of the groups of one match.
pub open spec fn groups_view(groups: Vec<Option<String>>) -> Seq<Option<Seq<char>>> {
    groups@.map_values(
        |group: Option<String>|
            match group {
                Some(text) => Some(text@),
                None => None,
            },
    )
}

/// The texts of the groups of all matches.
pub open spec fn matches_view(found: Option<Vec<Vec<Option<String>>>>) -> Option<
    Seq<Seq<Option<Seq<char>>>>,
> {
    match found {
        Some(matches) => Some(matches@.map_values(|groups: Vec<Option<String>>| groups_view(groups))),
        None => None,
    }
}

/// Compiles `pattern` with `regex::Regex::new` and collects what `Regex::captures_iter`
/// yields on `haystack`, each group through `Captures::iter` and `Match::as_str`.
///
/// Trusted: the result is what the `regex` crate finds, which depends on the pattern and
/// the text alone.
#[verifier::external_body]
fn capture_groups(pattern: &str, haystack: &str) -> (found: Option<Vec<Vec<Option<String>>>>)
    ensures
        matches_view(found) == regex_captures(pattern@, haystack@),
{
    let re = regex::Regex::new(pattern).ok()?;
    Some(
        re.captures_iter(haystack).map(
            |caps| caps.iter().map(|group| group.map(|m| m.as_str().to_string())).collect(),
        ).collect(),
    )
}

/// The text of group `index` of a match, empty where the group is absent.
pub open spec fn group_text(groups: Seq<Option<Seq<char>>>, index: int) -> Seq<char> {
    if 0 <= index < groups.len() {
        match groups[index] {
            Some(text) => text,
            None => Seq::empty(),
        }
    } else {
        Seq::empty()
    }
}

/// The block that one match stands for: group 1 names the contract, group 2 is the source.
pub open spec fn block_of_match(groups: Seq<Option<Seq<char>>>) -> SolidityBlock {
    SolidityBlock { contract_name: group_text(groups, 1), solidity_code: group_text(groups, 2) }
}

/// The blocks that a list of matches stands for, one per match, in order.
pub open spec fn blocks_of_matches(matches: Seq<Seq<Option<Seq<char>>>>) -> Seq<SolidityBlock> {
    Seq::new(matches.len(), |i: int| block_of_match(matches[i]))
}

/// The blocks found in a text: one per match of the block pattern, none where the pattern
/// could not be compiled.
pub open spec fn solidity_blocks(text: Seq<char>) -> Seq<SolidityBlock> {
    match regex_captures(solidity_block_pattern(), text) {
        Some(matches) => blocks_of_matches(matches),
        None => Seq::empty(),
    }
}

/// What a list of blocks holds, as texts.
pub open spec fn blocks_view(blocks: Seq<SolidityFromCpp>) -> Seq<SolidityBlock> {
    blocks.map_values(|block: SolidityFromCpp| block@)
}

/// A copy of the text of group `index`, empty where the group is absent.
fn group_string(groups: &Vec<Option<String>>, index: usize) -> (text: String)
    ensures
        text@ == group_text(groups_view(*groups), index as int),
{
    if index < groups.len() {
        match &groups[index] {
            Some(text) => text.clone(),
            None => String::new(),
        }
    } else {
        String::new()
    }
}

/// Turns the matches of the block pattern into blocks, one per match, in order.
pub fn blocks_from_matches(matches: &Vec<Vec<Option<String>>>) -> (blocks: Vec<SolidityFromCpp>)
    ensures
        blocks_view(blocks@) == blocks_of_matches(matches_view(Some(*matches))->0),
{
    let ghost found = matches_view(Some(*matches))->0;
    let mut blocks: Vec<SolidityFromCpp> = Vec::new();
    let mut i: usize = 0;
    while i < matches.len()
        invariant
            i <= matches.len(),
            found == matches_view(Some(*matches))->0,
            blocks@.len() == i,
            forall|j: int| 0 <= j < i ==> (#[trigger] blocks@[j])@ == block_of_match(found[j]),
        decreases matches.len() - i,
    {
        let groups = &matches[i];
        let block = SolidityFromCpp {
            contract_name: group_string(groups, 1),
            solidity_code: group_string(groups, 2),
        };
        blocks.push(block);
        i += 1;
    }
    assert(blocks_view(blocks@) =~= blocks_of_matches(found));
    blocks
}

/// Extracts the Solidity blocks of a C++ source text, in the order in which they stand.
pub fn extract_solidity_from_cpp(s: &str) -> (blocks: Vec<SolidityFromCpp>)
    ensures
        blocks_view(blocks@) == solidity_blocks(s@),
{
    let found = capture_groups("SOLIDITY\\(([\\w_]+),\\s*R\"\"\"\\(((.|\\n)*?)\\)\"\"\"\\)", s);
    match found {
        Some(matches) => blocks_from_matches(&matches),
        None => {
            let blocks: Vec<SolidityFromCpp> = Vec::new();
            assert(blocks_view(blocks@) =~= Seq::empty());
            blocks
        },
    }
}

/// One block comes out for every match of the block pattern, in the order of the matches,
/// and none where nothing matches.
pub proof fn lemma_one_block_per_match(text: Seq<char>, matches: Seq<Seq<Option<Seq<char>>>>)
    requires
        regex_captures(solidity_block_pattern(), text) == Some(matches),
    ensures
        solidity_blocks(text).len() == matches.len(),
        forall|i: int|
            0 <= i < matches.len() ==> #[trigger] solidity_blocks(text)[i] == block_of_match(
                matches[i],
            ),
        matches.len() == 0 ==> solidity_blocks(text) == Seq::<SolidityBlock>::empty(),
{
    assert(matches.len() == 0 ==> solidity_blocks(text) =~= Seq::<SolidityBlock>::empty());
}

} // verus!
