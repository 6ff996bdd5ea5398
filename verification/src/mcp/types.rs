//! Request and response types for MCP tools.
use std::collections::HashMap;
use vstd::prelude::*;

verus! {

/// Output format for tool responses.
#[derive(Debug, Clone, Copy, PartialEq, Eq, Structural)]
pub enum OutputFormat {
    /// Plain text format optimized for AI consumption (less escaping overhead)
    Text,
    /// JSON format for programmatic consumption
    Json,
}

impl Default for OutputFormat {
    fn default() -> (r: Self)
        ensures
            r == OutputFormat::Text,
    {
        OutputFormat::Text
    }
}

/// Default number of lines fetched.
pub fn default_count() -> (r: usize)
    ensures
        r == 100,
{
    100
}

/// Default maximum number of search results.
pub fn default_max_results() -> (r: usize)
    ensures
        r == 100,
{
    100
}

/// Default number of context lines on each side.
pub fn default_context() -> (r: usize)
    ensures
        r == 5,
{
    5
}

/// Request to fetch lines from a lazytail source.
#[derive(Debug)]
pub struct GetLinesRequest {
    /// Source name (from list_sources)
    pub source: String,
    /// Starting line number (0-indexed)
    pub start: usize,
    /// Number of lines to fetch (default 100, max 1000)
    pub count: usize,
    /// Return raw content with ANSI escape codes intact (default: false, strips ANSI)
    pub raw: bool,
    /// Output format: "text" (default, plain text) or "json"
    pub output: OutputFormat,
    /// Return full line content without truncation (default: false, lines over 500 chars are truncated)
    pub full_content: bool,
}

/// Response containing lines from a log file.
#[derive(Debug)]
pub struct GetLinesResponse {
    /// The requested lines
    pub lines: Vec<LineInfo>,
    /// Total lines in the file
    pub total_lines: usize,
    /// Whether more lines exist after the requested range
    pub has_more: bool,
}

/// Information about a single line.
#[derive(Debug)]
pub struct LineInfo {
    /// Line number (0-indexed)
    pub line_number: usize,
    /// Line content
    pub content: String,
    /// Severity level (from columnar index, if available)
    pub severity: Option<String>,
    /// Rendered line content using preset formatting (if a preset matched)
    pub rendered: Option<String>,
}

/// Search mode for pattern matching.
#[derive(Debug, Clone, Copy, PartialEq, Eq, Structural)]
pub enum SearchMode {
    /// Plain text search (fast, literal matching)
    Plain,
    /// Regular expression search
    Regex,
}

impl Default for SearchMode {
    fn default() -> (r: Self)
        ensures
            r == SearchMode::Plain,
    {
        SearchMode::Plain
    }
}

/// Request to search for patterns in a lazytail source.
#[derive(Debug)]
pub struct SearchRequest {
    /// Source name (from list_sources)
    pub source: String,
    /// Search pattern (plain text or regex).
    pub pattern: String,
    /// Search mode: "plain" or "regex" (default: plain)
    pub mode: SearchMode,
    /// Case sensitive search (default: false)
    pub case_sensitive: bool,
    /// Maximum number of results to return (default 100, max 1000)
    pub max_results: usize,
    /// Number of context lines before and after each match (default 0, max 50)
    pub context_lines: usize,
    /// Return raw content with ANSI escape codes intact (default: false, strips ANSI)
    pub raw: bool,
    /// Output format: "text" (default, plain text) or "json"
    pub output: OutputFormat,
    /// Return full line content without truncation (default: false, lines over 500 chars are truncated)
    pub full_content: bool,
}

/// Response containing search results.
#[derive(Debug)]
pub struct SearchResponse {
    /// Matching lines with optional context
    pub matches: Vec<SearchMatch>,
    /// Total number of matches found (may be more than returned if truncated)
    pub total_matches: usize,
    /// Whether results were truncated due to max_results limit
    pub truncated: bool,
    /// Total lines searched in the file
    pub lines_searched: usize,
}

/// A single search match with optional context.
#[derive(Debug)]
pub struct SearchMatch {
    /// Line number of the match (0-indexed)
    pub line_number: usize,
    /// The matching line content
    pub content: String,
    /// Context lines before the match (if requested)
    pub before: Vec<String>,
    /// Context lines after the match (if requested)
    pub after: Vec<String>,
}

/// Request to fetch the last N lines from a lazytail source.
#[derive(Debug)]
pub struct GetTailRequest {
    /// Source name (from list_sources)
    pub source: String,
    /// Number of lines to fetch from the end (default 100, max 1000)
    pub count: usize,
    /// Only return lines after this line number (0-indexed, exclusive).
    pub since_line: Option<usize>,
    /// Return raw content with ANSI escape codes intact (default: false, strips ANSI)
    pub raw: bool,
    /// Output format: "text" (default, plain text) or "json"
    pub output: OutputFormat,
    /// Return full line content without truncation (default: false, lines over 500 chars are truncated)
    pub full_content: bool,
}

/// Request to get context around a specific line in a lazytail source.
#[derive(Debug)]
pub struct GetContextRequest {
    /// Source name (from list_sources)
    pub source: String,
    /// The target line number (0-indexed)
    pub line_number: usize,
    /// Number of lines before the target (default 5, max 50)
    pub before: usize,
    /// Number of lines after the target (default 5, max 50)
    pub after: usize,
    /// Return raw content with ANSI escape codes intact (default: false, strips ANSI)
    pub raw: bool,
    /// Output format: "text" (default, plain text) or "json"
    pub output: OutputFormat,
    /// Return full line content without truncation (default: false, lines over 500 chars are truncated)
    pub full_content: bool,
}

/// Response containing context around a line.
#[derive(Debug)]
pub struct GetContextResponse {
    /// Lines before the target
    pub before_lines: Vec<LineInfo>,
    /// The target line
    pub target_line: LineInfo,
    /// Lines after the target
    pub after_lines: Vec<LineInfo>,
    /// Total lines in the file
    pub total_lines: usize,
}

/// Request to list available sources (no parameters needed).
#[derive(Debug, Default)]
pub struct ListSourcesRequest {}

/// Response containing available log sources.
#[derive(Debug)]
pub struct ListSourcesResponse {
    /// Available log sources
    pub sources: Vec<SourceInfo>,
    /// Path to the data directory
    pub data_directory: String,
}

/// Information about a log source.
#[derive(Debug)]
pub struct SourceInfo {
    /// Source name (without .log extension)
    pub name: String,
    /// Full path to the log file
    pub path: String,
    /// Whether the source is actively being written to
    pub status: SourceStatus,
    /// File size in bytes
    pub size_bytes: u64,
    /// Where the source was found (project-local or global)
    pub location: SourceLocation,
    /// Renderer preset names assigned to this source
    pub renderer_names: Vec<String>,
}

/// Status of a log source.
#[derive(Debug, Clone, Copy, PartialEq, Eq, Structural)]
pub enum SourceStatus {
    /// Source is actively being written to (capture process running)
    Active,
    /// Source capture has ended (file still available)
    Ended,
}

/// Location where a source was discovered.
#[derive(Debug, Clone, Copy, PartialEq, Eq, Structural)]
pub enum SourceLocation {
    /// Source is in project-local .lazytail/data/
    Project,
    /// Source is in global ~/.config/lazytail/data/
    Global,
}

/// Information about a single aggregation group.
#[derive(Debug)]
pub struct AggregationGroupInfo {
    /// Field name-value pairs forming the group key.
    pub key: HashMap<String, String>,
    /// Number of matching lines in this group.
    pub count: usize,
}

/// Response containing aggregation results.
#[derive(Debug)]
pub struct AggregationResponse {
    /// Groups sorted by count descending.
    pub groups: Vec<AggregationGroupInfo>,
    /// Total number of matching lines across all groups.
    pub total_matches: usize,
    /// Total lines searched in the file.
    pub lines_searched: usize,
}

/// Request to get index stats for a lazytail source.
#[derive(Debug)]
pub struct GetStatsRequest {
    /// Source name (from list_sources)
    pub source: String,
    /// Output format: "text" (default, plain text) or "json"
    pub output: OutputFormat,
}

/// Severity count breakdown from checkpoint data.
#[derive(Debug, Clone, Copy, PartialEq, Eq, Structural)]
pub struct SeverityCountsInfo {
    pub unknown: u32,
    pub trace: u32,
    pub debug: u32,
    pub info: u32,
    pub warn: u32,
    pub error: u32,
    pub fatal: u32,
}

} // verus!
