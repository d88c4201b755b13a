//! Request and reply records of the HTTP surface, and the pure
//! conversions the handlers perform.

use crate::tasks::types::{TaskConfig, TaskId, TaskStatus};
use crate::timeframe::Timeframe;
use vstd::prelude::*;

verus! {

/// Query naming one exchange.
#[derive(Debug, Clone)]
pub struct ExchangeQuery {
    pub exchange: String,
}

/// Body of a request to scaffold a new strategy package.
#[derive(Debug, Clone)]
pub struct AddStrategyRequest {
    pub name: String,
}

/// Reply listing the workspace's strategy packages.
#[derive(Debug, Clone)]
pub struct ListStrategiesResponse {
    pub strategies: Vec<String>,
}

/// Query selecting a stored candle range.
#[derive(Debug, Clone)]
pub struct GetCandlesQuery {
    pub symbol: String,
    pub exchange: String,
    pub timeframe: Timeframe,
    pub start: Option<i64>,
    pub end: Option<i64>,
}

/// Body of a request to start a fetch task.
#[derive(Debug, Clone)]
pub struct CreateFetchTaskRequest {
    pub symbol: String,
    pub exchange: String,
    pub timeframe: Timeframe,
    pub start: Option<i64>,
    pub end: Option<i64>,
}

/// Reply to a task creation request.
#[derive(Debug, Clone, Copy)]
pub struct CreateTaskResponse {
    pub task_id: TaskId,
    pub status: TaskStatus,
}

/// Query naming a path inside the sandboxed strategy workspace.
#[derive(Debug, Clone)]
pub struct GetSourceQuery {
    pub path: String,
}

/// Kind of a workspace tree node.
#[derive(Debug, Clone, Copy, PartialEq, Eq, Structural)]
pub enum FileNodeType {
    File,
    Directory,
}

/// One entry of a workspace directory listing.
#[derive(Debug, Clone)]
pub struct FileNode {
    pub name: String,
    pub path: String,
    pub node_type: FileNodeType,
}

/// Reply to a workspace read: a file's content or a directory's
/// children.
#[derive(Debug, Clone)]
pub enum GetSourceResponse {
    File { name: String, path: String, content: String },
    Directory { name: String, path: String, children: Vec<FileNode> },
}

/// Query naming the file a save writes.
#[derive(Debug, Clone)]
pub struct SaveSourceQuery {
    pub path: String,
}

/// Query naming the path a delete removes.
#[derive(Debug, Clone)]
pub struct DeleteSourceQuery {
    pub path: String,
}

/// Query naming the source and destination of a move.
#[derive(Debug, Clone)]
pub struct MoveSourceQuery {
    pub old_path: String,
    pub new_path: String,
}

impl CreateFetchTaskRequest {
    /// The task configuration this request asks for.
    pub fn into_config(self) -> (r: TaskConfig)
        ensures
            r == (TaskConfig::FetchCandles {
                symbol: self.symbol,
                exchange: self.exchange,
                timeframe: self.timeframe,
                start_date: self.start,
                end_date: self.end,
            }),
    {
        TaskConfig::FetchCandles {
            symbol: self.symbol,
            exchange: self.exchange,
            timeframe: self.timeframe,
            start_date: self.start,
            end_date: self.end,
        }
    }
}

} // verus!
