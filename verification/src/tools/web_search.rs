//! The web search tool: its arguments, the search request and the output.

use crate::tools::ToolDefinition;
use vstd::prelude::*;
use vstd::string::*;

verus! {

/// The arguments of a search.
#[derive(Debug, Clone)]
pub struct WebSearchArgs {
    pub query: String,
    pub max_results: u8,
    pub topic: String,
    pub time_range: Option<String>,
}

/// The number of results when the model gives none: 5, the default that the
/// tool's parameter schema announces.
pub fn default_max_results() -> (r: u8)
    ensures
        r == 5,
{
    5
}

/// The topic when the model gives none.
pub fn default_topic() -> (r: String)
    ensures
        r@ == "general"@,
{
    String::from_str("general")
}

/// The body sent to the search service.
#[derive(Debug, Clone)]
pub struct TavilyRequest {
    pub api_key: String,
    pub query: String,
    pub max_results: u8,
    pub topic: String,
    pub time_range: Option<String>,
    pub search_depth: String,
    pub include_answer: bool,
}

impl TavilyRequest {
    /// The request for `args`: an advanced search that also asks for an answer.
    pub fn from_args(api_key: &str, args: &WebSearchArgs) -> (r: Self)
        ensures
            r.api_key@ == api_key@,
            r.query@ == args.query@,
            r.max_results == args.max_results,
            r.topic@ == args.topic@,
            crate::json::opt_view(r.time_range) == crate::json::opt_view(args.time_range),
            r.search_depth@ == "advanced"@,
            r.include_answer,
    {
        TavilyRequest {
            api_key: String::from_str(api_key),
            query: args.query.clone(),
            max_results: args.max_results,
            topic: args.topic.clone(),
            time_range: match &args.time_range {
                Some(t) => Some(t.clone()),
                None => None,
            },
            search_depth: String::from_str("advanced"),
            include_answer: true,
        }
    }
}

/// One search hit.
#[derive(Debug, Clone)]
pub struct SearchResult {
    pub title: String,
    pub url: String,
    pub content: String,
}

/// What the tool returns: the service's answer, if any, and its hits.
#[derive(Debug, Clone)]
pub struct WebSearchOutput {
    pub answer: Option<String>,
    pub results: Vec<SearchResult>,
}

/// Searches the web.
pub struct WebSearchTool;

/// The JSON schema offered to the model for the search parameters.
pub const WEB_SEARCH_PARAMETERS: &'static str = "{\"type\":\"object\",\"properties\":{\"query\":{\"type\":\"string\",\"description\":\"The search query to execute with Tavily\"},\"max_results\":{\"type\":\"number\",\"description\":\"The maximum number of search results to return\",\"default\":5,\"minimum\":0,\"maximum\":20},\"topic\":{\"type\":\"string\",\"description\":\"Use 'news' for recent events, sports, politics, or anything time-sensitive. Use 'general' for broad or evergreen questions.\",\"enum\":[\"general\",\"news\",\"finance\"],\"default\":\"general\"},\"time_range\":{\"type\":\"string\",\"description\":\"Restrict results to a recent time window. Use when the query is about something recent or ongoing.\",\"enum\":[\"day\",\"week\",\"month\",\"year\"]}},\"required\":[\"query\"]}";

impl WebSearchTool {
    /// The tool's name.
    pub fn name(&self) -> (r: &'static str)
        ensures
            r@ == "web_search"@,
    {
        "web_search"
    }

    /// The tool's description for the model.
    pub fn description(&self) -> (r: &'static str)
        ensures
            r@ == "Search the web for current information on a given query."@,
    {
        "Search the web for current information on a given query."
    }

    /// The tool's output when the search failed with `reason`.
    pub fn error_output(reason: &str) -> (r: String)
        ensures
            r@ == "Error: "@ + reason@,
    {
        let mut m = String::from_str("Error: ");
        m.append(reason);
        m
    }
}

/// The definition of the search tool offered to the model.
pub fn web_search_tool_definition() -> (d: ToolDefinition)
    ensures
        d.name@ == "web_search"@,
        d.description@ == "Search the web for current information on a given query."@,
        d.parameters@ == WEB_SEARCH_PARAMETERS@,
{
    ToolDefinition {
        name: String::from_str("web_search"),
        description: String::from_str("Search the web for current information on a given query."),
        parameters: String::from_str(WEB_SEARCH_PARAMETERS),
    }
}

} // verus!
