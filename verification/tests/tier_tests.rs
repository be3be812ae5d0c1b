use qjs_regjit::register_interpreter::{tier_step, TierAction, TierEvent, TierStage, NATIVE_CACHE_LIMIT};

/// Feeds `events` to the tier from the start and returns the actions.
fn drive(events: &[TierEvent]) -> Vec<TierAction> {
    let mut stage = TierStage::Start;
    let mut actions = Vec::new();
    for e in events {
        let (s, a) = tier_step(stage, *e);
        stage = s;
        actions.push(a);
    }
    actions
}

#[test]
fn tier_without_native_code_compiles_then_interprets() {
    let a = drive(&[TierEvent::Begin { native: false }, TierEvent::RegisterCompiled { ok: true }]);
    assert_eq!(a, vec![TierAction::CompileRegister { evict: false }, TierAction::RunInterpreter { evict: false }]);
    let a = drive(&[TierEvent::Begin { native: false }, TierEvent::RegisterCompiled { ok: false }]);
    assert_eq!(a[1], TierAction::ReturnUninitialized);
}

#[test]
fn tier_returns_cached_native_result() {
    let a = drive(&[
        TierEvent::Begin { native: true },
        TierEvent::CacheLookup { hit: true },
        TierEvent::NativeReturned { bailed: false },
    ]);
    assert_eq!(a, vec![TierAction::LookUpCache, TierAction::RunCachedNative, TierAction::ReturnNativeResult]);
}

#[test]
fn tier_recompiles_after_cached_bail_and_interprets_after_fresh_bail() {
    let a = drive(&[
        TierEvent::Begin { native: true },
        TierEvent::CacheLookup { hit: true },
        TierEvent::NativeReturned { bailed: true },
        TierEvent::RegisterCompiled { ok: true },
        TierEvent::NativeCompiled { ok: true, fallback_to_c: false, cache_len: 10 },
        TierEvent::NativeReturned { bailed: true },
    ]);
    assert_eq!(
        a,
        vec![
            TierAction::LookUpCache,
            TierAction::RunCachedNative,
            TierAction::CompileRegister { evict: true },
            TierAction::CompileNative,
            TierAction::RunNative { cache: true },
            TierAction::RunInterpreter { evict: true },
        ]
    );
}

#[test]
fn tier_native_miss_falls_back_or_interprets() {
    let base = [
        TierEvent::Begin { native: true },
        TierEvent::CacheLookup { hit: false },
        TierEvent::RegisterCompiled { ok: true },
    ];
    let mut with_fallback = base.to_vec();
    with_fallback.push(TierEvent::NativeCompiled { ok: false, fallback_to_c: true, cache_len: 0 });
    assert_eq!(drive(&with_fallback)[3], TierAction::ReturnUninitialized);
    let mut without = base.to_vec();
    without.push(TierEvent::NativeCompiled { ok: false, fallback_to_c: false, cache_len: 0 });
    assert_eq!(drive(&without)[3], TierAction::RunInterpreter { evict: false });
    assert_eq!(drive(&without)[1], TierAction::CompileRegister { evict: false });
}

#[test]
fn tier_cache_limit() {
    let mut events = vec![
        TierEvent::Begin { native: true },
        TierEvent::CacheLookup { hit: false },
        TierEvent::RegisterCompiled { ok: true },
        TierEvent::NativeCompiled { ok: true, fallback_to_c: false, cache_len: NATIVE_CACHE_LIMIT },
    ];
    assert_eq!(drive(&events)[3], TierAction::RunNative { cache: false });
    events[3] = TierEvent::NativeCompiled { ok: true, fallback_to_c: false, cache_len: NATIVE_CACHE_LIMIT - 1 };
    assert_eq!(drive(&events)[3], TierAction::RunNative { cache: true });
}

#[test]
fn tier_unexpected_report_hands_over_to_c() {
    let (stage, action) = tier_step(TierStage::Start, TierEvent::CacheLookup { hit: true });
    assert_eq!(stage, TierStage::Finished);
    assert_eq!(action, TierAction::ReturnUninitialized);
    let (stage, action) = tier_step(TierStage::Finished, TierEvent::Begin { native: true });
    assert_eq!(stage, TierStage::Finished);
    assert_eq!(action, TierAction::ReturnUninitialized);
}

#[test]
fn tier_settles_within_six_reports() {
    // Whatever is reported, a run settles after at most six reports.
    let all = [
        TierEvent::Begin { native: true },
        TierEvent::CacheLookup { hit: true },
        TierEvent::NativeReturned { bailed: true },
        TierEvent::RegisterCompiled { ok: true },
        TierEvent::NativeCompiled { ok: true, fallback_to_c: false, cache_len: 0 },
        TierEvent::NativeReturned { bailed: true },
    ];
    let mut stage = TierStage::Start;
    for e in all.iter() {
        stage = tier_step(stage, *e).0;
    }
    assert_eq!(stage, TierStage::Finished);
}
