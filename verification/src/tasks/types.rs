//! Task records and lifecycle events.

use crate::tasks::backtest::{backtest_result_eq, BacktestResult};
use crate::tasks::fetch_candles::{fetch_result_eq, FetchCandlesResult};
use crate::timeframe::Timeframe;
use vstd::prelude::*;

verus! {

pub type TaskId = u128;

/// What kind of work a task performs.
#[derive(Debug, Clone, Copy, PartialEq, Eq, Structural)]
pub enum TaskType {
    FetchCandles,
    Backtest,
}

/// Lifecycle state of a task.
#[derive(Debug, Clone, Copy, PartialEq, Eq, Structural)]
pub enum TaskStatus {
    Pending,
    Running,
    Completed,
    Failed,
}

/// A terminal task can never change again.
pub open spec fn is_terminal(s: TaskStatus) -> bool {
    s is Completed || s is Failed
}

/// Parameters of a task.
#[derive(Debug)]
pub enum TaskConfig {
    FetchCandles {
        symbol: String,
        exchange: String,
        timeframe: Timeframe,
        start_date: Option<i64>,
        end_date: Option<i64>,
    },
    Backtest { strategy_name: String, exchange: String, symbol: String, timeframe: Timeframe },
}

/// Payload of a completed task.
#[derive(Debug)]
pub enum TaskResult {
    FetchCandles(FetchCandlesResult),
    Backtest(BacktestResult),
}

/// Content equality of task configurations.
pub open spec fn config_eq(a: TaskConfig, b: TaskConfig) -> bool {
    match (a, b) {
        (
            TaskConfig::FetchCandles {
                symbol: s1,
                exchange: e1,
                timeframe: t1,
                start_date: sd1,
                end_date: ed1,
            },
            TaskConfig::FetchCandles {
                symbol: s2,
                exchange: e2,
                timeframe: t2,
                start_date: sd2,
                end_date: ed2,
            },
        ) => s1@ == s2@ && e1@ == e2@ && t1 == t2 && sd1 == sd2 && ed1 == ed2,
        (
            TaskConfig::Backtest { strategy_name: n1, exchange: e1, symbol: s1, timeframe: t1 },
            TaskConfig::Backtest { strategy_name: n2, exchange: e2, symbol: s2, timeframe: t2 },
        ) => n1@ == n2@ && e1@ == e2@ && s1@ == s2@ && t1 == t2,
        _ => false,
    }
}

/// Content equality of task results.
pub open spec fn result_eq(a: TaskResult, b: TaskResult) -> bool {
    match (a, b) {
        (TaskResult::FetchCandles(x), TaskResult::FetchCandles(y)) => fetch_result_eq(x, y),
        (TaskResult::Backtest(x), TaskResult::Backtest(y)) => backtest_result_eq(x, y),
        _ => false,
    }
}

/// Content equality of optional task results.
pub open spec fn opt_result_eq(a: Option<TaskResult>, b: Option<TaskResult>) -> bool {
    match (a, b) {
        (None, None) => true,
        (Some(x), Some(y)) => result_eq(x, y),
        _ => false,
    }
}

impl TaskConfig {
    /// A content-equal copy.
    pub fn duplicate(&self) -> (r: TaskConfig)
        ensures
            config_eq(r, *self),
    {
        match self {
            TaskConfig::FetchCandles { symbol, exchange, timeframe, start_date, end_date } => {
                TaskConfig::FetchCandles {
                    symbol: symbol.clone(),
                    exchange: exchange.clone(),
                    timeframe: *timeframe,
                    start_date: *start_date,
                    end_date: *end_date,
                }
            },
            TaskConfig::Backtest { strategy_name, exchange, symbol, timeframe } => {
                TaskConfig::Backtest {
                    strategy_name: strategy_name.clone(),
                    exchange: exchange.clone(),
                    symbol: symbol.clone(),
                    timeframe: *timeframe,
                }
            },
        }
    }
}

impl TaskResult {
    /// A content-equal copy.
    pub fn duplicate(&self) -> (r: TaskResult)
        ensures
            result_eq(r, *self),
    {
        match self {
            TaskResult::FetchCandles(x) => TaskResult::FetchCandles(x.duplicate()),
            TaskResult::Backtest(x) => TaskResult::Backtest(x.duplicate()),
        }
    }
}

/// One unit of background work and everything observable about it.
#[derive(Debug)]
pub struct Task {
    pub id: TaskId,
    pub task_type: TaskType,
    pub status: TaskStatus,
    pub progress: u8,
    pub config: TaskConfig,
    pub result: Option<TaskResult>,
    pub error_message: Option<String>,
    pub created_at: i64,
    pub started_at: Option<i64>,
    pub completed_at: Option<i64>,
    pub updated_at: i64,
}

/// The task type demanded by a configuration.
pub open spec fn spec_task_type(config: TaskConfig) -> TaskType {
    match config {
        TaskConfig::FetchCandles { .. } => TaskType::FetchCandles,
        TaskConfig::Backtest { .. } => TaskType::Backtest,
    }
}

/// The task a fresh creation yields: pending, no progress, no result.
pub open spec fn spec_new_task(id: TaskId, config: TaskConfig, now: i64) -> Task {
    Task {
        id,
        task_type: spec_task_type(config),
        status: TaskStatus::Pending,
        progress: 0,
        config,
        result: None,
        error_message: None,
        created_at: now,
        started_at: None,
        completed_at: None,
        updated_at: now,
    }
}

/// Content equality of tasks.
pub open spec fn task_eq(a: Task, b: Task) -> bool {
    &&& a.id == b.id
    &&& a.task_type == b.task_type
    &&& a.status == b.status
    &&& a.progress == b.progress
    &&& config_eq(a.config, b.config)
    &&& (match (a.result, b.result) {
        (None, None) => true,
        (Some(x), Some(y)) => result_eq(x, y),
        _ => false,
    })
    &&& (match (a.error_message, b.error_message) {
        (None, None) => true,
        (Some(x), Some(y)) => x@ == y@,
        _ => false,
    })
    &&& a.created_at == b.created_at
    &&& a.started_at == b.started_at
    &&& a.completed_at == b.completed_at
    &&& a.updated_at == b.updated_at
}

impl Task {
    /// A fresh pending task.
    pub fn new(id: TaskId, config: TaskConfig, now: i64) -> (t: Task)
        ensures
            t == spec_new_task(id, config, now),
    {
        let task_type = match &config {
            TaskConfig::FetchCandles { .. } => TaskType::FetchCandles,
            TaskConfig::Backtest { .. } => TaskType::Backtest,
        };
        Task {
            id,
            task_type,
            status: TaskStatus::Pending,
            progress: 0,
            config,
            result: None,
            error_message: None,
            created_at: now,
            started_at: None,
            completed_at: None,
            updated_at: now,
        }
    }

    /// A content-equal copy.
    pub fn duplicate(&self) -> (r: Task)
        ensures
            task_eq(r, *self),
    {
        Task {
            id: self.id,
            task_type: self.task_type,
            status: self.status,
            progress: self.progress,
            config: self.config.duplicate(),
            result: match &self.result {
                Some(x) => Some(x.duplicate()),
                None => None,
            },
            error_message: match &self.error_message {
                Some(x) => Some(x.clone()),
                None => None,
            },
            created_at: self.created_at,
            started_at: self.started_at,
            completed_at: self.completed_at,
            updated_at: self.updated_at,
        }
    }
}

/// A lifecycle event, as delivered to subscribers.
#[derive(Debug)]
pub enum TaskEvent {
    Create { task: Task },
    Progress { task_id: TaskId, progress: u8, status: TaskStatus },
    Status { task_id: TaskId, status: TaskStatus },
    Complete { task_id: TaskId, result: Option<TaskResult> },
    Fail { task_id: TaskId, error: String },
}

/// The task an event concerns.
pub open spec fn event_id(e: TaskEvent) -> TaskId {
    match e {
        TaskEvent::Create { task } => task.id,
        TaskEvent::Progress { task_id, .. } => task_id,
        TaskEvent::Status { task_id, .. } => task_id,
        TaskEvent::Complete { task_id, .. } => task_id,
        TaskEvent::Fail { task_id, .. } => task_id,
    }
}

/// Whether an event announces a terminal state.
pub open spec fn is_terminal_event(e: TaskEvent) -> bool {
    e is Complete || e is Fail
}

} // verus!
