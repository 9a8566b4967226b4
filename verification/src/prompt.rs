//! Prompt construction: a pure, deterministic function from project name,
//! description and target language to the instruction text sent to the model,
//! together with the fixed system instruction that accompanies it.
use vstd::prelude::*;
use vstd::string::*;

verus! {

/// The template text that precedes the project name.
pub open spec fn prompt_head() -> Seq<char> {
    "Take the following programming language, application requirements, and produce a working application.\n\n        your solution must include:\n        1. Dockerfile that allows the application to be built and run\n        2. Makefile that contains the following commands assuming that the application is executed using the Dockerfile.\n            a. make build\n            b. make run (make sure that docker cleans up after itself)\n            c. make test (make sure that docker cleans up after itself)\n        3. Readme with instructions required to build and run the application\n        4. files with the source code for the application, make sure to not escape the control characters twice, like \\n because that will break the source code.\n        5. Make sure to always include a json property called \"joke\" with a joke about software developers.\n\n\n        The output must match the provided output json schema and be a valid json.\n\n        Project Name:\n        ---\n        "@
}

/// The template text between the project name and the language.
pub open spec fn prompt_mid_language() -> Seq<char> {
    "\n        ---\n\n        Programming Language:\n        ---\n        "@
}

/// The template text between the language and the description.
pub open spec fn prompt_mid_description() -> Seq<char> {
    "\n        ---\n\n        Application Requirements:\n        ---\n        "@
}

/// The template text after the description: the example output shape and the
/// final formatting instructions.
pub open spec fn prompt_tail() -> Seq<char> {
    "\n        ---\n\n        Output Json schema:\n        {\n            \"joke\": \"joke contents\",\n            \"dockerfile\": \"dockerfile contents\",\n            \"makefile\": \"makefile contents\",\n            \"readme\": \"readme contents\",\n            \"source_files\": [\n                {\n                    \"name\": \"...\",\n                    \"contents\": \"...\"\n                }\n            ]\n        }\n\n        Make sure that you do not include invalid control characters in the output json or invalid characters (like double quotes or something else that can break the json).\n\n        Respond ONLY with the data portion of a valid Json object. No schema definition required. No other words."@
}

/// The whole prompt: the template with the three inputs embedded verbatim.
pub open spec fn prompt_text(name: Seq<char>, description: Seq<char>, language: Seq<char>) -> Seq<
    char,
> {
    prompt_head() + name + prompt_mid_language() + language + prompt_mid_description() + description
        + prompt_tail()
}

/// The fixed system instruction sent alongside every user prompt.
pub open spec fn system_prompt_text() -> Seq<char> {
    "You are a helpful programming assistant.\n                    You are expected to process an application description and generate the files and steps necessary to create the application using your language model.\n                    You can only respond with a Json object that matches the provided output schema.\n                    The returned Json can include an array of objects as defined by the output schema.\n                    You are not allowed to return anything but a valid Json object."@
}

/// Builds the instruction text for the model. Pure: the result is exactly the
/// template of `prompt_text` with `name`, `description` and `language`
/// embedded as given, even when they are empty.
pub fn generate_prompt(name: &str, description: &str, language: &str) -> (r: String)
    ensures
        r@ == prompt_text(name@, description@, language@),
{
    let mut p = String::new();
    p.append(
        "Take the following programming language, application requirements, and produce a working application.\n\n        your solution must include:\n        1. Dockerfile that allows the application to be built and run\n        2. Makefile that contains the following commands assuming that the application is executed using the Dockerfile.\n            a. make build\n            b. make run (make sure that docker cleans up after itself)\n            c. make test (make sure that docker cleans up after itself)\n        3. Readme with instructions required to build and run the application\n        4. files with the source code for the application, make sure to not escape the control characters twice, like \\n because that will break the source code.\n        5. Make sure to always include a json property called \"joke\" with a joke about software developers.\n\n\n        The output must match the provided output json schema and be a valid json.\n\n        Project Name:\n        ---\n        ",
    );
    p.append(name);
    p.append("\n        ---\n\n        Programming Language:\n        ---\n        ");
    p.append(language);
    p.append("\n        ---\n\n        Application Requirements:\n        ---\n        ");
    p.append(description);
    p.append(
        "\n        ---\n\n        Output Json schema:\n        {\n            \"joke\": \"joke contents\",\n            \"dockerfile\": \"dockerfile contents\",\n            \"makefile\": \"makefile contents\",\n            \"readme\": \"readme contents\",\n            \"source_files\": [\n                {\n                    \"name\": \"...\",\n                    \"contents\": \"...\"\n                }\n            ]\n        }\n\n        Make sure that you do not include invalid control characters in the output json or invalid characters (like double quotes or something else that can break the json).\n\n        Respond ONLY with the data portion of a valid Json object. No schema definition required. No other words.",
    );
    proof {
        assert(p@ =~= prompt_text(name@, description@, language@));
    }
    p
}

/// Returns the fixed system instruction.
pub fn system_prompt() -> (r: String)
    ensures
        r@ == system_prompt_text(),
{
    String::from_str(
        "You are a helpful programming assistant.\n                    You are expected to process an application description and generate the files and steps necessary to create the application using your language model.\n                    You can only respond with a Json object that matches the provided output schema.\n                    The returned Json can include an array of objects as defined by the output schema.\n                    You are not allowed to return anything but a valid Json object.",
    )
}

/// Law: prompt construction is deterministic. Two prompts built from equal
/// inputs are equal, character for character.
pub proof fn lemma_prompt_deterministic(
    n1: Seq<char>,
    d1: Seq<char>,
    l1: Seq<char>,
    n2: Seq<char>,
    d2: Seq<char>,
    l2: Seq<char>,
)
    requires
        n1 == n2,
        d1 == d2,
        l1 == l2,
    ensures
        prompt_text(n1, d1, l1) == prompt_text(n2, d2, l2),
{
}

} // verus!
