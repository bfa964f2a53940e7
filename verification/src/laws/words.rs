//! The words that the protocol is written with: enough of each to tell it from the others.

use vstd::prelude::*;

verus! {

/// The keys of JSON objects differ from each other.
pub proof fn lemma_keys()
    ensures
        "id"@.len() == 2,
        "uri"@.len() == 3,
        "file"@.len() == 4 && "file"@[0] == 'f',
        "line"@.len() == 4 && "line"@[0] == 'l',
        "kind"@.len() == 4 && "kind"@[0] == 'k',
        "name"@.len() == 4 && "name"@[0] == 'n',
        "path"@.len() == 4 && "path"@[0] == 'p',
        "root"@.len() == 4 && "root"@[0] == 'r',
        "score"@.len() == 5 && "score"@[0] == 's' && "score"@[1] == 'c',
        "files"@.len() == 5 && "files"@[0] == 'f' && "files"@[1] == 'i',
        "limit"@.len() == 5 && "limit"@[0] == 'l' && "limit"@[1] == 'i',
        "items"@.len() == 5 && "items"@[0] == 'i' && "items"@[1] == 't',
        "depth"@.len() == 5 && "depth"@[0] == 'd' && "depth"@[1] == 'e',
        "calls"@.len() == 5 && "calls"@[0] == 'c' && "calls"@[1] == 'a',
        "error"@.len() == 5 && "error"@[0] == 'e' && "error"@[1] == 'r',
        "query"@.len() == 5 && "query"@[0] == 'q' && "query"@[1] == 'u',
        "range"@.len() == 5 && "range"@[0] == 'r' && "range"@[1] == 'a',
        "start"@.len() == 5 && "start"@[0] == 's' && "start"@[1] == 't',
        "symbol"@.len() == 6 && "symbol"@[3] == 'b' && "symbol"@[5] == 'l',
        "caller"@.len() == 6 && "caller"@[3] == 'l' && "caller"@[5] == 'r',
        "callee"@.len() == 6 && "callee"@[3] == 'l' && "callee"@[5] == 'e',
        "status"@.len() == 6 && "status"@[3] == 't' && "status"@[5] == 's',
        "action"@.len() == 6 && "action"@[3] == 'i' && "action"@[5] == 'n',
        "result"@.len() == 6 && "result"@[3] == 'u' && "result"@[5] == 't',
        "method"@.len() == 6 && "method"@[3] == 'h' && "method"@[5] == 'd',
        "params"@.len() == 6 && "params"@[3] == 'a' && "params"@[5] == 's',
        "search"@.len() == 6 && "search"@[3] == 'r' && "search"@[5] == 'h',
        "target"@.len() == 6 && "target"@[3] == 'g' && "target"@[5] == 't',
        "classes"@.len() == 7 && "classes"@[2] == 'a' && "classes"@[0] == 'c',
        "methods"@.len() == 7 && "methods"@[2] == 't' && "methods"@[0] == 'm',
        "adapter"@.len() == 7 && "adapter"@[2] == 'a' && "adapter"@[0] == 'a',
        "message"@.len() == 7 && "message"@[2] == 's' && "message"@[0] == 'm',
        "example"@.len() == 7 && "example"@[2] == 'a' && "example"@[0] == 'e',
        "payload"@.len() == 7 && "payload"@[2] == 'y' && "payload"@[0] == 'p',
        "service"@.len() == 7 && "service"@[2] == 'r' && "service"@[0] == 's',
        "summary"@.len() == 7 && "summary"@[2] == 'm' && "summary"@[0] == 's',
        "jsonrpc"@.len() == 7 && "jsonrpc"@[2] == 'o' && "jsonrpc"@[0] == 'j',
        "rootUri"@.len() == 7 && "rootUri"@[2] == 'o' && "rootUri"@[0] == 'r',
        "context"@.len() == 7 && "context"@[2] == 'n' && "context"@[0] == 'c',
        "replace"@.len() == 7 && "replace"@[2] == 'p' && "replace"@[0] == 'r',
        "language"@.len() == 8 && "language"@[2] == 'n',
        "provider"@.len() == 8 && "provider"@[2] == 'o',
        "required"@.len() == 8 && "required"@[2] == 'q',
        "category"@.len() == 8 && "category"@[2] == 't',
        "position"@.len() == 8 && "position"@[2] == 's',
        "location"@.len() == 8 && "location"@[2] == 'c',
        "signature"@.len() == 9 && "signature"@[0] == 's',
        "truncated"@.len() == 9 && "truncated"@[0] == 't',
        "available"@.len() == 9 && "available"@[0] == 'a',
        "warmed_up"@.len() == 9 && "warmed_up"@[0] == 'w',
        "processId"@.len() == 9 && "processId"@[0] == 'p',
        "character"@.len() == 9 && "character"@[0] == 'c',
        "match_type"@.len() == 10 && "match_type"@[0] == 'm',
        "error_code"@.len() == 10 && "error_code"@[0] == 'e',
        "context_key"@.len() == 11 && "context_key"@[2] == 'n',
        "duration_ms"@.len() == 11 && "duration_ms"@[2] == 'r',
        "next_action"@.len() == 11 && "next_action"@[2] == 'x',
        "description"@.len() == 11 && "description"@[2] == 's',
        "project_root"@.len() == 12 && "project_root"@[0] == 'p',
        "capabilities"@.len() == 12 && "capabilities"@[0] == 'c',
        "textDocument"@.len() == 12 && "textDocument"@[0] == 't',
        "changed_files"@.len() == 13 && "changed_files"@[0] == 'c',
        "total_methods"@.len() == 13 && "total_methods"@[0] == 't',
        "active_project"@.len() == 14 && "active_project"@[0] == 'a',
        "search_excerpt"@.len() == 14 && "search_excerpt"@[0] == 's',
        "reindexed_files"@.len() == 15 && "reindexed_files"@[2] == 'i',
        "requires_warmup"@.len() == 15 && "requires_warmup"@[2] == 'q',
        "protocol_version"@.len() == 16 && "protocol_version"@[0] == 'p',
        "workspaceFolders"@.len() == 16 && "workspaceFolders"@[0] == 'w',
        "supported_version"@.len() == 17,
        "includeDeclaration"@.len() == 18,
        "search_replace_blocks"@.len() == 21,
        "requires_warmup_methods"@.len() == 23,
        "requires_project_activation"@.len() == 27,
        "requires_project_activation_methods"@.len() == 35,
{
    reveal_strlit("symbol");
    reveal_strlit("file");
    reveal_strlit("line");
    reveal_strlit("signature");
    reveal_strlit("kind");
    reveal_strlit("score");
    reveal_strlit("match_type");
    reveal_strlit("name");
    reveal_strlit("path");
    reveal_strlit("classes");
    reveal_strlit("methods");
    reveal_strlit("root");
    reveal_strlit("language");
    reveal_strlit("files");
    reveal_strlit("limit");
    reveal_strlit("items");
    reveal_strlit("depth");
    reveal_strlit("calls");
    reveal_strlit("provider");
    reveal_strlit("truncated");
    reveal_strlit("caller");
    reveal_strlit("callee");
    reveal_strlit("status");
    reveal_strlit("active_project");
    reveal_strlit("context_key");
    reveal_strlit("adapter");
    reveal_strlit("message");
    reveal_strlit("project_root");
    reveal_strlit("changed_files");
    reveal_strlit("reindexed_files");
    reveal_strlit("duration_ms");
    reveal_strlit("action");
    reveal_strlit("next_action");
    reveal_strlit("example");
    reveal_strlit("payload");
    reveal_strlit("required");
    reveal_strlit("error_code");
    reveal_strlit("available");
    reveal_strlit("service");
    reveal_strlit("protocol_version");
    reveal_strlit("warmed_up");
    reveal_strlit("summary");
    reveal_strlit("total_methods");
    reveal_strlit("requires_warmup_methods");
    reveal_strlit("requires_project_activation_methods");
    reveal_strlit("category");
    reveal_strlit("requires_warmup");
    reveal_strlit("requires_project_activation");
    reveal_strlit("description");
    reveal_strlit("search_excerpt");
    reveal_strlit("supported_version");
    reveal_strlit("id");
    reveal_strlit("error");
    reveal_strlit("result");
    reveal_strlit("jsonrpc");
    reveal_strlit("method");
    reveal_strlit("params");
    reveal_strlit("processId");
    reveal_strlit("rootUri");
    reveal_strlit("capabilities");
    reveal_strlit("workspaceFolders");
    reveal_strlit("uri");
    reveal_strlit("query");
    reveal_strlit("textDocument");
    reveal_strlit("position");
    reveal_strlit("context");
    reveal_strlit("includeDeclaration");
    reveal_strlit("character");
    reveal_strlit("location");
    reveal_strlit("range");
    reveal_strlit("start");
    reveal_strlit("search");
    reveal_strlit("replace");
    reveal_strlit("target");
    reveal_strlit("search_replace_blocks");
}

/// The actions differ from each other.
pub proof fn lemma_actions()
    ensures
        "repo.map"@.len() == 8,
        "graph.calls"@.len() == 11 && "graph.calls"@[0] == 'g',
        "patch.apply"@.len() == 11 && "patch.apply"@[0] == 'p',
        "system.health"@.len() == 13 && "system.health"@[7] == 'h',
        "system.warmup"@.len() == 13 && "system.warmup"@[7] == 'w',
        "symbol.lookup"@.len() == 13 && "symbol.lookup"@[7] == 'l',
        "symbol.resolve"@.len() == 14,
        "project.activate"@.len() == 16,
        "symbol.lookup.fuzzy"@.len() == 19,
        "symbol.lookup.static"@.len() == 20,
{
    reveal_strlit("system.health");
    reveal_strlit("project.activate");
    reveal_strlit("system.warmup");
    reveal_strlit("repo.map");
    reveal_strlit("symbol.lookup");
    reveal_strlit("symbol.lookup.static");
    reveal_strlit("symbol.resolve");
    reveal_strlit("symbol.lookup.fuzzy");
    reveal_strlit("graph.calls");
    reveal_strlit("patch.apply");
}

/// The codes of errors differ from each other.
pub proof fn lemma_codes()
    ensures
        "COMMON_INTERNAL"@.len() == 15,
        "ALSP_LSP_TIMEOUT"@.len() == 16,
        "PATCHLET_CONFLICT"@.len() == 17,
        "COMMON_BAD_REQUEST"@.len() == 18,
        "ADAPTER_ROUTE_FAILED"@.len() == 20 && "ADAPTER_ROUTE_FAILED"@[1] == 'D',
        "ALSP_LSP_UNAVAILABLE"@.len() == 20 && "ALSP_LSP_UNAVAILABLE"@[1] == 'L',
        "PATCHLET_SEARCH_MISS"@.len() == 20 && "PATCHLET_SEARCH_MISS"@[1] == 'A',
        "ALSP_SYMBOL_NOT_FOUND"@.len() == 21 && "ALSP_SYMBOL_NOT_FOUND"@[0] == 'A',
        "PATCHLET_APPLY_FAILED"@.len() == 21 && "PATCHLET_APPLY_FAILED"@[0] == 'P',
        "COMMON_PRECONDITION_REQUIRED"@.len() == 28,
{
    reveal_strlit("ADAPTER_ROUTE_FAILED");
    reveal_strlit("COMMON_BAD_REQUEST");
    reveal_strlit("COMMON_PRECONDITION_REQUIRED");
    reveal_strlit("COMMON_INTERNAL");
    reveal_strlit("ALSP_LSP_TIMEOUT");
    reveal_strlit("ALSP_LSP_UNAVAILABLE");
    reveal_strlit("ALSP_SYMBOL_NOT_FOUND");
    reveal_strlit("PATCHLET_CONFLICT");
    reveal_strlit("PATCHLET_SEARCH_MISS");
    reveal_strlit("PATCHLET_APPLY_FAILED");
}

} // verus!
