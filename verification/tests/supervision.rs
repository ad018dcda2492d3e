use spread_circuit::actors::price_db::{PriceWriter, WriterAction};
use spread_circuit::actors::supervisor::{judge_run, plan_shutdown, Drained, Ending, Shutdown};
use spread_circuit::db::{
    ensure_startup_safe, prune_prices, RecoveryRecord, UnresolvedRecoveries, ZeroRowLimit,
};

fn exited() -> Ending {
    Ending::ActorExited { name: "price-db".to_owned() }
}

fn broken() -> Ending {
    Ending::ActorFailed { error: "panic".to_owned() }
}

#[test]
fn an_orderly_shutdown_ends_well() {
    assert_eq!(plan_shutdown(&Ending::ShutdownRequested, true), Shutdown { cancel: false, drain: true });
    assert_eq!(judge_run(&Ending::ShutdownRequested, true, &Drained::Finished), Ok(()));
    assert_eq!(plan_shutdown(&exited(), true), Shutdown { cancel: false, drain: true });
    assert_eq!(judge_run(&exited(), true, &Drained::Finished), Ok(()));
}

#[test]
fn a_part_that_is_lost_stops_the_system() {
    assert_eq!(plan_shutdown(&exited(), false), Shutdown { cancel: true, drain: true });
    assert_eq!(
        judge_run(&exited(), false, &Drained::Finished),
        Err("关键 actor 意外退出: price-db".to_owned())
    );
    assert_eq!(plan_shutdown(&broken(), true), Shutdown { cancel: true, drain: true });
    assert_eq!(
        judge_run(&broken(), true, &Drained::TimedOut),
        Err("关键 actor task 异常: panic".to_owned())
    );
    assert_eq!(plan_shutdown(&Ending::NoActors, false), Shutdown { cancel: true, drain: false });
    assert_eq!(
        judge_run(&Ending::NoActors, false, &Drained::Finished),
        Err("没有可运行的关键 actor".to_owned())
    );
}

#[test]
fn trouble_while_waiting_is_reported() {
    assert_eq!(
        judge_run(&Ending::ShutdownRequested, true, &Drained::TimedOut),
        Err("优雅关闭超过 120 秒，已强制终止剩余 actor；可能存在待恢复交易".to_owned())
    );
    assert_eq!(
        judge_run(&Ending::ShutdownRequested, true, &Drained::ActorFailed { error: "x".to_owned() }),
        Err("优雅关闭期间 actor task 异常: x".to_owned())
    );
}

#[test]
fn the_writer_prunes_every_thousandth_write() {
    let mut writer = PriceWriter::new();
    for n in 1..=3000u32 {
        let wanted = if n % 1000 == 0 { WriterAction::Prune } else { WriterAction::Continue };
        assert_eq!(writer.written(true), wanted);
        if n % 7 == 0 {
            assert_eq!(writer.written(false), WriterAction::Continue);
        }
    }
}

#[test]
fn the_writer_stops_on_the_third_failure_in_a_row() {
    let mut writer = PriceWriter::new();
    assert_eq!(writer.written(false), WriterAction::Continue);
    assert_eq!(writer.written(false), WriterAction::Continue);
    assert_eq!(writer.written(true), WriterAction::Continue);
    assert_eq!(writer.written(false), WriterAction::Continue);
    assert_eq!(writer.written(false), WriterAction::Continue);
    assert_eq!(writer.written(false), WriterAction::Stop);
}

fn record() -> RecoveryRecord {
    RecoveryRecord {
        pair: "HYPE".to_owned(),
        stage: "recovery_required".to_owned(),
        direction: "buy_diff".to_owned(),
        evm_tx_hash: Some("0xabc".to_owned()),
        liquid_oid: None,
        reason: "x".to_owned(),
    }
}

#[test]
fn unfinished_trades_keep_live_trading_from_starting() {
    assert_eq!(ensure_startup_safe(false, &[]), Ok(()));
    assert_eq!(ensure_startup_safe(true, &[record()]), Ok(()));
    assert_eq!(
        ensure_startup_safe(false, &[record(), record()]),
        Err(UnresolvedRecoveries { count: 2 })
    );
    assert_eq!(record().clone(), record());
}

#[test]
fn pruning_keeps_the_configured_number_of_rows() {
    assert_eq!(prune_prices(10, 0), Err(ZeroRowLimit));
    assert_eq!(prune_prices(10, 10), Ok(0));
    assert_eq!(prune_prices(9, 10), Ok(0));
    assert_eq!(prune_prices(25, 10), Ok(15));
    for count in 0..30 {
        let left = count - prune_prices(count, 10).unwrap();
        assert_eq!(left, count.min(10));
        assert_eq!(prune_prices(left, 10), Ok(0));
    }
}
