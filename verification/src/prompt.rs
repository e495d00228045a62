//! Building the prompt sent to the generation service: the built-in
//! template, placeholder substitution, and the decision whether a run has
//! anything to do at all.

use vstd::prelude::*;
use crate::text::contains_seq;
use crate::text::join_lines;
use crate::text::join_spec;
use crate::text::lemma_contains_trans;
use crate::text::lemma_join_contains_each;
use crate::text::lemma_occurs_in_prefix;
use crate::text::lemma_replace_contains_rep;
use crate::text::occurs_at;
use crate::text::replace;
use crate::text::replace_spec;

verus! {

/// View of the built-in prompt template: two fixed text blocks around two
/// placeholder occurrences, so that the staged-file list is substituted in
/// twice.
pub open spec fn default_template_spec() -> Seq<char> {
    "Action: Generate a clear, single-line git commit message for the following staged files.
            Staged files:
            "@ + "{}"@ + "

            - Follow the conventional commit style (e.g., feat, fix, refactor, docs).
            - Describe the intent of the changes (what and why, not how).
            - Use only the information available from the file names.
            - Respond with only the commit message, no extra text.
            - Do not return any other information.

            **Example 1**
            Staged files:
            - src/user/profile.ts
            - src/components/Avatar.tsx

            Commit Message:
            feat: add user profile page and avatar component

            now generate a commit message for the following staged files:
            Staged files:
            "@ + "{}"@ + "

            DO NOT RETURN ANYTHING ELSE, ONLY THE COMMIT MESSAGE."@
}

/// The built-in template used when no user template is supplied. It
/// contains the placeholder, so substitution always has somewhere to put
/// the file list.
pub fn default_template() -> (r: String)
    ensures
        r@ == default_template_spec(),
        contains_seq(r@, "{}"@),
{
    let mut s = String::from_str(
        "Action: Generate a clear, single-line git commit message for the following staged files.
            Staged files:
            ",
    );
    let ghost p1 = s@;
    s.append("{}");
    let ghost g1 = s@;
    s.append(
        "

            - Follow the conventional commit style (e.g., feat, fix, refactor, docs).
            - Describe the intent of the changes (what and why, not how).
            - Use only the information available from the file names.
            - Respond with only the commit message, no extra text.
            - Do not return any other information.

            **Example 1**
            Staged files:
            - src/user/profile.ts
            - src/components/Avatar.tsx

            Commit Message:
            feat: add user profile page and avatar component

            now generate a commit message for the following staged files:
            Staged files:
            ",
    );
    s.append("{}");
    s.append(
        "

            DO NOT RETURN ANYTHING ELSE, ONLY THE COMMIT MESSAGE.",
    );
    proof {
        reveal_strlit("{}");
        assert(g1.subrange(p1.len() as int, p1.len() as int + "{}"@.len() as int) =~= "{}"@);
        assert(occurs_at(g1, "{}"@, p1.len() as int));
        assert(g1 =~= s@.subrange(0, g1.len() as int));
        lemma_occurs_in_prefix(g1, s@, "{}"@, p1.len() as int);
    }
    s
}

/// What a run does first: nothing at all when the staged-file list is
/// empty, otherwise a generation round with the prompt built from the
/// template.
pub enum RunPlan {
    NothingStaged,
    Generate { prompt: String },
}

/// Decide the first step of a run. An empty staged-file list ends the run
/// at once: no prompt is built and the generation service is never called.
/// Otherwise the prompt is the template with every placeholder occurrence
/// replaced by the newline-joined file list.
pub fn plan_run(template: &str, files: &Vec<String>) -> (r: RunPlan)
    ensures
        files@.len() == 0 <==> r is NothingStaged,
        files@.len() > 0 <==> r is Generate,
        r matches RunPlan::Generate { prompt } ==> prompt@ == replace_spec(
            template@,
            "{}"@,
            join_spec(files.deep_view(), "\n"@),
        ),
{
    if files.len() == 0 {
        RunPlan::NothingStaged
    } else {
        let joined = join_lines(files);
        proof {
            reveal_strlit("{}");
        }
        let prompt = replace(template, "{}", joined.as_str());
        RunPlan::Generate { prompt }
    }
}

/// Law: when the template contains the placeholder, the built prompt
/// contains every staged file name as a contiguous substring.
pub proof fn lemma_prompt_contains_files(template: Seq<char>, files: Seq<Seq<char>>, i: int)
    requires
        contains_seq(template, "{}"@),
        0 <= i < files.len(),
    ensures
        contains_seq(replace_spec(template, "{}"@, join_spec(files, "\n"@)), files[i]),
{
    reveal_strlit("{}");
    let joined = join_spec(files, "\n"@);
    lemma_join_contains_each(files, "\n"@, i);
    lemma_replace_contains_rep(template, "{}"@, joined);
    lemma_contains_trans(files[i], joined, replace_spec(template, "{}"@, joined));
}

} // verus!
