//! The words in which states are shown.
use vstd::prelude::*;
use crate::api::{StewardExecutionState, StewardTaskLifecycle};
use crate::conversation::{
    ConversationRuntimeStateKind, ConversationRuntimeSummary, ConversationRuntimeSummaryView, ConversationStatus,
};
use crate::text::opt_view;

verus! {

/// The word for a lifecycle.
pub open spec fn lifecycle_word(value: StewardTaskLifecycle) -> Seq<char> {
    match value {
        StewardTaskLifecycle::Open => "进行中"@,
        StewardTaskLifecycle::Completed => "已完成"@,
        StewardTaskLifecycle::Cancelled => "已取消"@,
        StewardTaskLifecycle::Archived => "已归档"@,
    }
}

/// The word for a lifecycle.
pub fn lifecycle_label(value: &StewardTaskLifecycle) -> (r: &'static str)
    ensures
        r@ == lifecycle_word(*value),
{
    match value {
        StewardTaskLifecycle::Open => "进行中",
        StewardTaskLifecycle::Completed => "已完成",
        StewardTaskLifecycle::Cancelled => "已取消",
        StewardTaskLifecycle::Archived => "已归档",
    }
}

/// The word for an execution state.
pub open spec fn execution_state_word(value: StewardExecutionState) -> Seq<char> {
    match value {
        StewardExecutionState::Unassigned => "未分配"@,
        StewardExecutionState::Running => "执行中"@,
        StewardExecutionState::WaitingUser => "等待用户"@,
        StewardExecutionState::WaitingExternal => "等待外部"@,
        StewardExecutionState::Paused => "已暂停"@,
        StewardExecutionState::Interrupted => "已中断"@,
        StewardExecutionState::Failed => "失败"@,
        StewardExecutionState::Idle => "空闲"@,
    }
}

/// The word for an execution state.
pub fn execution_state_label(value: &StewardExecutionState) -> (r: &'static str)
    ensures
        r@ == execution_state_word(*value),
{
    match value {
        StewardExecutionState::Unassigned => "未分配",
        StewardExecutionState::Running => "执行中",
        StewardExecutionState::WaitingUser => "等待用户",
        StewardExecutionState::WaitingExternal => "等待外部",
        StewardExecutionState::Paused => "已暂停",
        StewardExecutionState::Interrupted => "已中断",
        StewardExecutionState::Failed => "失败",
        StewardExecutionState::Idle => "空闲",
    }
}

/// The word for the persisted status of a conversation.
pub open spec fn status_word(value: ConversationStatus) -> Seq<char> {
    match value {
        ConversationStatus::Pending => "等待中"@,
        ConversationStatus::Running => "运行中"@,
        ConversationStatus::Finished => "空闲"@,
    }
}

/// The word for the persisted status of a conversation.
pub fn conversation_status_label(value: ConversationStatus) -> (r: &'static str)
    ensures
        r@ == status_word(value),
{
    match value {
        ConversationStatus::Pending => "等待中",
        ConversationStatus::Running => "运行中",
        ConversationStatus::Finished => "空闲",
    }
}

/// The word for what a conversation is doing. Where its runtime is idle or absent, the
/// persisted status speaks.
pub open spec fn runtime_word(runtime: Option<ConversationRuntimeSummaryView>, status: ConversationStatus) -> Seq<char> {
    match runtime {
        None => status_word(status),
        Some(r) => if r.is_processing {
            "执行中"@
        } else {
            match r.state {
                ConversationRuntimeStateKind::Idle => status_word(status),
                ConversationRuntimeStateKind::Starting => "启动中"@,
                ConversationRuntimeStateKind::Running => "运行中"@,
                ConversationRuntimeStateKind::Cancelling => "取消中"@,
                ConversationRuntimeStateKind::Restarting => "重启中"@,
                ConversationRuntimeStateKind::WaitingConfirmation => "等待确认"@,
            }
        },
    }
}

/// The word for what a conversation is doing.
pub fn conversation_runtime_label(
    runtime: Option<&ConversationRuntimeSummary>,
    persisted_status: ConversationStatus,
) -> (r: &'static str)
    ensures
        r@ == runtime_word(opt_view(runtime), persisted_status),
{
    match runtime {
        None => conversation_status_label(persisted_status),
        Some(x) => if x.is_processing {
            "执行中"
        } else {
            match x.state {
                ConversationRuntimeStateKind::Idle => conversation_status_label(persisted_status),
                ConversationRuntimeStateKind::Starting => "启动中",
                ConversationRuntimeStateKind::Running => "运行中",
                ConversationRuntimeStateKind::Cancelling => "取消中",
                ConversationRuntimeStateKind::Restarting => "重启中",
                ConversationRuntimeStateKind::WaitingConfirmation => "等待确认",
            }
        },
    }
}

/// Each lifecycle has its own word, so that a reader can tell them apart.
pub proof fn law_lifecycle_words_tell_apart(a: StewardTaskLifecycle, b: StewardTaskLifecycle)
    ensures
        lifecycle_word(a) == lifecycle_word(b) <==> a == b,
        a is Open <==> lifecycle_word(a) == "进行中"@,
        a is Completed <==> lifecycle_word(a) == "已完成"@,
        a is Cancelled <==> lifecycle_word(a) == "已取消"@,
        a is Archived <==> lifecycle_word(a) == "已归档"@,
{
    reveal_strlit("进行中");
    assert("进行中"@.len() == 3 && "进行中"@[0] == '进' && "进行中"@[1] == '行' && "进行中"@[2] == '中');
    reveal_strlit("已完成");
    assert("已完成"@.len() == 3 && "已完成"@[0] == '已' && "已完成"@[1] == '完' && "已完成"@[2] == '成');
    reveal_strlit("已取消");
    assert("已取消"@.len() == 3 && "已取消"@[0] == '已' && "已取消"@[1] == '取' && "已取消"@[2] == '消');
    reveal_strlit("已归档");
    assert("已归档"@.len() == 3 && "已归档"@[0] == '已' && "已归档"@[1] == '归' && "已归档"@[2] == '档');
}

/// Each execution state has its own word, so that a reader can tell them apart.
pub proof fn law_execution_state_words_tell_apart(a: StewardExecutionState, b: StewardExecutionState)
    ensures
        execution_state_word(a) == execution_state_word(b) <==> a == b,
        a is Unassigned <==> execution_state_word(a) == "未分配"@,
        a is Running <==> execution_state_word(a) == "执行中"@,
        a is WaitingUser <==> execution_state_word(a) == "等待用户"@,
        a is WaitingExternal <==> execution_state_word(a) == "等待外部"@,
        a is Paused <==> execution_state_word(a) == "已暂停"@,
        a is Interrupted <==> execution_state_word(a) == "已中断"@,
        a is Failed <==> execution_state_word(a) == "失败"@,
        a is Idle <==> execution_state_word(a) == "空闲"@,
{
    reveal_strlit("未分配");
    assert("未分配"@.len() == 3 && "未分配"@[0] == '未' && "未分配"@[1] == '分' && "未分配"@[2] == '配');
    reveal_strlit("执行中");
    assert("执行中"@.len() == 3 && "执行中"@[0] == '执' && "执行中"@[1] == '行' && "执行中"@[2] == '中');
    reveal_strlit("等待用户");
    assert("等待用户"@.len() == 4 && "等待用户"@[0] == '等' && "等待用户"@[1] == '待' && "等待用户"@[2] == '用' && "等待用户"@[3] == '户');
    reveal_strlit("等待外部");
    assert("等待外部"@.len() == 4 && "等待外部"@[0] == '等' && "等待外部"@[1] == '待' && "等待外部"@[2] == '外' && "等待外部"@[3] == '部');
    reveal_strlit("已暂停");
    assert("已暂停"@.len() == 3 && "已暂停"@[0] == '已' && "已暂停"@[1] == '暂' && "已暂停"@[2] == '停');
    reveal_strlit("已中断");
    assert("已中断"@.len() == 3 && "已中断"@[0] == '已' && "已中断"@[1] == '中' && "已中断"@[2] == '断');
    reveal_strlit("失败");
    assert("失败"@.len() == 2 && "失败"@[0] == '失' && "失败"@[1] == '败');
    reveal_strlit("空闲");
    assert("空闲"@.len() == 2 && "空闲"@[0] == '空' && "空闲"@[1] == '闲');
}

/// Each status of a conversation has its own word.
pub proof fn law_status_words_tell_apart(a: ConversationStatus, b: ConversationStatus)
    ensures
        status_word(a) == status_word(b) <==> a == b,
        a is Pending <==> status_word(a) == "等待中"@,
        a is Running <==> status_word(a) == "运行中"@,
        a is Finished <==> status_word(a) == "空闲"@,
{
    reveal_strlit("等待中");
    assert("等待中"@.len() == 3 && "等待中"@[0] == '等' && "等待中"@[1] == '待' && "等待中"@[2] == '中');
    reveal_strlit("运行中");
    assert("运行中"@.len() == 3 && "运行中"@[0] == '运' && "运行中"@[1] == '行' && "运行中"@[2] == '中');
    reveal_strlit("空闲");
    assert("空闲"@.len() == 2 && "空闲"@[0] == '空' && "空闲"@[1] == '闲');
}

/// What a conversation does now counts before what is stored of it: one that is processing
/// is called so whatever its state, one that is between two states by its state, and one
/// that is idle or of which nothing is known by its stored status.
pub proof fn law_the_present_counts_before_the_stored(
    runtime: Option<ConversationRuntimeSummaryView>,
    status: ConversationStatus,
)
    ensures
        runtime is None ==> runtime_word(runtime, status) == status_word(status),
        runtime matches Some(r) ==> {
            &&& r.is_processing ==> runtime_word(runtime, status) == "执行中"@
            &&& !r.is_processing && r.state is Idle ==> runtime_word(runtime, status) == status_word(status)
            &&& !r.is_processing && r.state is Starting ==> runtime_word(runtime, status) == "启动中"@
            &&& !r.is_processing && r.state is Running ==> runtime_word(runtime, status) == "运行中"@
            &&& !r.is_processing && r.state is Cancelling ==> runtime_word(runtime, status) == "取消中"@
            &&& !r.is_processing && r.state is Restarting ==> runtime_word(runtime, status) == "重启中"@
            &&& !r.is_processing && r.state is WaitingConfirmation ==> runtime_word(runtime, status) == "等待确认"@
        },
{
}

} // verus!
