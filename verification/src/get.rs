use vstd::prelude::*;

use crate::api::{
    api_version_text, ascii_lower, ascii_plural, guessed_plural, is_ascii_text, plural_guessable, resource_type,
    ResourceType,
};
use crate::name_map::NameMap;
use crate::text::str_equal;

verus! {

/// Why a get failed.
#[derive(Debug)]
pub enum GetError {
    GetResourcesMissing(String),
    ContextGroupMissing(String),
}

/// What `get` was asked for.
pub struct GetArgs {
    /// API group of the resource (empty for the core group).
    pub group: String,
    pub version: String,
    pub kind: String,
    /// The one object to get; every object of the kind when absent.
    pub resource_name: Option<String>,
    pub output: String,
    pub namespace: String,
    /// The context group to query instead of the current context.
    pub cluster_group: Option<String>,
    /// The file that lists the context groups.
    pub context_file: String,
    /// Whether to keep the managed fields of the objects.
    pub managed_fields: bool,
}

/// How the result of a get is printed.
#[derive(PartialEq, Eq, Structural)]
pub enum OutputFormat {
    Json,
    Yaml,
    Tab,
    Wide,
    Unsupported,
}

/// The output format that the `--output` text selects.
pub open spec fn output_format_of(s: Seq<char>) -> OutputFormat {
    if s == "json"@ {
        OutputFormat::Json
    } else if s == "yaml"@ {
        OutputFormat::Yaml
    } else if s == "tab"@ {
        OutputFormat::Tab
    } else if s == "wide"@ {
        OutputFormat::Wide
    } else {
        OutputFormat::Unsupported
    }
}

/// Each output format is chosen by exactly one text, `json`, `yaml`, `tab` or
/// `wide`, written out in full; every other text is unsupported.
pub proof fn law_output_format_exact(s: Seq<char>)
    ensures
        (output_format_of(s) == OutputFormat::Json) <==> s == "json"@,
        (output_format_of(s) == OutputFormat::Yaml) <==> s == "yaml"@,
        (output_format_of(s) == OutputFormat::Tab) <==> s == "tab"@,
        (output_format_of(s) == OutputFormat::Wide) <==> s == "wide"@,
        (output_format_of(s) == OutputFormat::Unsupported) <==> (s != "json"@ && s != "yaml"@ && s != "tab"@
            && s != "wide"@),
{
    reveal_strlit("json");
    reveal_strlit("yaml");
    reveal_strlit("tab");
    reveal_strlit("wide");
    assert("json"@ != "yaml"@ && "json"@ != "wide"@) by {
        assert("json"@[0] != "yaml"@[0] && "json"@[0] != "wide"@[0]);
    }
    assert("yaml"@ != "wide"@) by {
        assert("yaml"@[0] != "wide"@[0]);
    }
    assert("tab"@.len() != "json"@.len() && "tab"@.len() != "yaml"@.len() && "tab"@.len() != "wide"@.len());
}

/// Reads the `--output` text.
pub fn output_format(output: &str) -> (f: OutputFormat)
    ensures
        f == output_format_of(output@),
        (f == OutputFormat::Json) <==> output@ == "json"@,
        (f == OutputFormat::Yaml) <==> output@ == "yaml"@,
        (f == OutputFormat::Tab) <==> output@ == "tab"@,
        (f == OutputFormat::Wide) <==> output@ == "wide"@,
        (f == OutputFormat::Unsupported) <==> (output@ != "json"@ && output@ != "yaml"@ && output@ != "tab"@
            && output@ != "wide"@),
{
    proof {
        law_output_format_exact(output@);
    }
    if str_equal(output, "json") {
        OutputFormat::Json
    } else if str_equal(output, "yaml") {
        OutputFormat::Yaml
    } else if str_equal(output, "tab") {
        OutputFormat::Tab
    } else if str_equal(output, "wide") {
        OutputFormat::Wide
    } else {
        OutputFormat::Unsupported
    }
}

/// The line printed for an output format that is not supported.
pub fn unsupported_output_message(output: &str) -> (msg: String)
    ensures
        msg@ == "Output format not supported, please use one of 'json', 'yaml', 'tab'. Provided "@ + output@,
{
    let mut msg = String::from_str("Output format not supported, please use one of 'json', 'yaml', 'tab'. Provided ");
    msg.append(output);
    msg
}

/// The name under which the current context's results are kept when no
/// context group is asked for.
pub fn default_context_name() -> (name: String)
    ensures
        name@ == "default"@,
{
    String::from_str("default")
}

/// The list type under which a single requested object is kept and printed.
pub fn single_object_list_type() -> (t: (String, String))
    ensures
        t.0@ == "v1"@,
        t.1@ == "PodList"@,
{
    (String::from_str("v1"), String::from_str("PodList"))
}

impl GetError {
    /// A failed request to the API server, with the error's text.
    pub fn from_api_error(message: String) -> (e: GetError)
        ensures
            e == GetError::ContextGroupMissing(message),
    {
        GetError::ContextGroupMissing(message)
    }
}

/// The outcome of a request to the API server: the object on success, else
/// the error's text as a `GetError`.
pub fn fetch_outcome<T>(result: Result<T, String>) -> (res: Result<T, GetError>)
    ensures
        match result {
            Ok(o) => res == Ok::<T, GetError>(o),
            Err(m) => res == Err::<T, GetError>(GetError::ContextGroupMissing(m)),
        },
{
    match result {
        Ok(o) => Ok(o),
        Err(m) => Err(GetError::from_api_error(m)),
    }
}

impl GetArgs {
    /// The resource type to ask the API server about.
    pub fn resource_type(&self) -> (rt: ResourceType)
        requires
            plural_guessable(self.kind@),
        ensures
            rt.group@ == self.group@,
            rt.version@ == self.version@,
            rt.kind@ == self.kind@,
            rt.api_version@ == api_version_text(self.group@, self.version@),
            rt.plural@ == guessed_plural(self.kind@),
            is_ascii_text(self.kind@) ==> rt.plural@ == ascii_plural(
                self.kind@.map_values(|c: char| ascii_lower(c)),
            ),
    {
        resource_type(self.group.as_str(), self.version.as_str(), self.kind.as_str())
    }
}

/// What a get collects, context by context: the client configuration, the
/// client, and the objects found.
pub struct MultiClusterMap<C, L, R> {
    pub configs: NameMap<C>,
    pub clients: NameMap<L>,
    pub resources: NameMap<R>,
}

impl<C, L, R> MultiClusterMap<C, L, R> {
    /// Nothing collected yet.
    pub fn new() -> (m: Self)
        ensures
            m.configs@ == Map::<Seq<char>, C>::empty(),
            m.clients@ == Map::<Seq<char>, L>::empty(),
            m.resources@ == Map::<Seq<char>, R>::empty(),
            m.configs.key_list() == Seq::<Seq<char>>::empty(),
            m.clients.key_list() == Seq::<Seq<char>>::empty(),
            m.resources.key_list() == Seq::<Seq<char>>::empty(),
    {
        MultiClusterMap { configs: NameMap::new(), clients: NameMap::new(), resources: NameMap::new() }
    }
}

} // verus!
