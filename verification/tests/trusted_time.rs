use bloom_triad::trusted_time::{
    advance_sample_state, continuous_ns, reading_at, timespec_ns, HostPlatform, SampleState,
};
use bloom_triad::{
    evaluate_durable_clock, DurableClockCondition, DurableClockDecision, DurableClockError,
    PersistedClockState, PlatformTimeReading, PlatformTimeSampler, TrustedTimeError,
    TrustedTimeSource, MAX_FORWARD_STEP_MS,
};

/// Two distinct monotonic domains, standing in for two boots.
const EPOCH_A: [u8; 16] = [0xa1; 16];
const EPOCH_B: [u8; 16] = [0xb2; 16];

/// What the continuous clock of this host reads.
fn boottime() -> Result<u64, TrustedTimeError> {
    match rustix::time::clock_gettime_dynamic(rustix::time::DynamicClockId::Boottime) {
        Ok(time) => timespec_ns(time.tv_sec, time.tv_nsec),
        Err(_) => Err(TrustedTimeError::WallClockRange),
    }
}

#[test]
fn source_id_round_trips() {
    let expected = TrustedTimeSource::LinuxSystemClock;
    assert_eq!(
        TrustedTimeSource::for_current_platform(HostPlatform::Linux, expected.source_id()).unwrap(),
        expected
    );
}

#[test]
fn schema_one_linux_source_id_remains_rollback_compatible() {
    assert_eq!(
        TrustedTimeSource::for_current_platform(HostPlatform::Linux, "linux-chrony-nts").unwrap(),
        TrustedTimeSource::LinuxSystemClock
    );
    assert_eq!(
        TrustedTimeSource::for_current_platform(HostPlatform::Linux, "linux-chrony-nts")
            .unwrap()
            .source_id(),
        "linux-chrony-nts"
    );
    assert_eq!(
        TrustedTimeSource::for_current_platform(HostPlatform::Linux, "linux-system-clock").unwrap(),
        TrustedTimeSource::LinuxSystemClock
    );
}

#[test]
fn other_platform_or_unknown_source_fails_closed() {
    assert!(TrustedTimeSource::for_current_platform(HostPlatform::Linux, "peer-supplied-time").is_err());
    assert!(TrustedTimeSource::for_current_platform(HostPlatform::Linux, "macos-managed-timed").is_err());
    assert!(TrustedTimeSource::for_current_platform(HostPlatform::Macos, "linux-system-clock").is_err());
}

#[test]
fn linux_system_time_uses_the_durable_guard() {
    assert!(TrustedTimeSource::LinuxSystemClock.requires_durable_clock_guard());
    assert!(!TrustedTimeSource::MacosManagedTimed.requires_durable_clock_guard());
}

#[test]
fn samples_never_invent_a_peer_or_fallback_timestamp() {
    let source = "linux-system-clock";
    let reading = PlatformTimeSampler::new(HostPlatform::Linux, source)
        .unwrap()
        .sample(boottime())
        .unwrap();
    assert!(reading.monotonic_anchor_ns > 0);
    assert!(reading.utc_ms.is_some_and(|utc_ms| utc_ms > 0));
}

#[test]
fn elapsed_conversion_carries_sub_millisecond_remainders() {
    let mut state = None;
    assert_eq!(advance_sample_state(&mut state, 1_000_000).unwrap(), 0);
    assert_eq!(advance_sample_state(&mut state, 1_500_000).unwrap(), 0);
    assert_eq!(advance_sample_state(&mut state, 2_100_000).unwrap(), 1);
    assert_eq!(state.unwrap().fractional_ns, 100_000);
}

#[test]
fn suspend_interval_is_included_in_elapsed_time() {
    let mut state = None;
    let before_suspend = 10_000_000_000;
    advance_sample_state(&mut state, before_suspend).unwrap();
    let two_hours_ns = 2 * 60 * 60 * 1_000_000_000;
    assert_eq!(
        advance_sample_state(&mut state, before_suspend + two_hours_ns).unwrap(),
        2 * 60 * 60 * 1_000
    );
}

#[test]
fn durable_clock_initializes_and_freezes_without_trusted_utc() {
    let reading = PlatformTimeReading {
        utc_ms: Some(10_000),
        monotonic_anchor_ns: 1_000_000_000,
        monotonic_elapsed_ms: 0,
    };
    assert_eq!(
        evaluate_durable_clock(None, &reading, Some(EPOCH_A), MAX_FORWARD_STEP_MS).unwrap(),
        DurableClockDecision {
            effective_now_ms: 10_000,
            condition: DurableClockCondition::Healthy,
        }
    );
    assert_eq!(
        evaluate_durable_clock(
            Some(PersistedClockState {
                last_effective_ms: 10_000,
                monotonic_anchor_ns: reading.monotonic_anchor_ns,
                boot_epoch: Some(EPOCH_A),
            }),
            &PlatformTimeReading {
                utc_ms: None,
                monotonic_anchor_ns: 2_000_000_000,
                monotonic_elapsed_ms: 1_000,
            },
            Some(EPOCH_A),
            MAX_FORWARD_STEP_MS,
        )
        .unwrap(),
        DurableClockDecision {
            effective_now_ms: 10_000,
            condition: DurableClockCondition::Untrusted,
        }
    );
}

#[test]
fn durable_clock_initializes_a_persisted_zero_effective_time() {
    let utc_ms = 1_787_279_361_000;
    let decision = evaluate_durable_clock(
        Some(PersistedClockState {
            last_effective_ms: 0,
            monotonic_anchor_ns: 42_000_000_000,
            boot_epoch: Some(EPOCH_A),
        }),
        &PlatformTimeReading {
            utc_ms: Some(utc_ms),
            monotonic_anchor_ns: 43_000_000_000,
            monotonic_elapsed_ms: 0,
        },
        Some(EPOCH_A),
        MAX_FORWARD_STEP_MS,
    )
    .unwrap();
    assert_eq!(
        decision,
        DurableClockDecision {
            effective_now_ms: utc_ms,
            condition: DurableClockCondition::Healthy,
        },
        "a persisted zero means no trusted epoch was ever established"
    );
}

#[test]
fn durable_clock_restart_credits_absolute_monotonic_downtime() {
    let two_hours_ms = 2 * 60 * 60 * 1_000;
    let decision = evaluate_durable_clock(
        Some(PersistedClockState {
            last_effective_ms: 10_000,
            monotonic_anchor_ns: 1_000_000_000,
            boot_epoch: Some(EPOCH_A),
        }),
        &PlatformTimeReading {
            utc_ms: Some(10_000 + two_hours_ms),
            monotonic_anchor_ns: 1_000_000_000 + two_hours_ms * 1_000_000,
            monotonic_elapsed_ms: 0,
        },
        Some(EPOCH_A),
        MAX_FORWARD_STEP_MS,
    )
    .unwrap();
    assert_eq!(
        decision,
        DurableClockDecision {
            effective_now_ms: 10_000 + two_hours_ms,
            condition: DurableClockCondition::Healthy,
        }
    );
}

#[test]
fn durable_clock_accepts_non_decreasing_wall_time_after_reboot() {
    // A reboot restarts CLOCK_BOOTTIME at zero. Its new anchor cannot prove
    // how long the machine was powered off, so the durable floor rejects
    // rollback while a nondecreasing host clock re-establishes current
    // time without requiring a separate synchronization daemon.
    let two_hours_ms = 2 * 60 * 60 * 1_000;
    let previous = PersistedClockState {
        last_effective_ms: 10_000,
        // Persisted one minute into the prior boot.
        monotonic_anchor_ns: 60 * 1_000_000_000,
        boot_epoch: Some(EPOCH_A),
    };
    let reading = PlatformTimeReading {
        utc_ms: Some(10_000 + two_hours_ms),
        // Two hours into the current boot: larger, but a different domain.
        monotonic_anchor_ns: 2 * 60 * 60 * 1_000_000_000,
        monotonic_elapsed_ms: 0,
    };

    assert_eq!(
        evaluate_durable_clock(Some(previous), &reading, Some(EPOCH_B), MAX_FORWARD_STEP_MS)
            .unwrap(),
        DurableClockDecision {
            effective_now_ms: 10_000 + two_hours_ms,
            condition: DurableClockCondition::Healthy,
        },
        "a nondecreasing wall clock must recover normally after reboot"
    );

    // An unknown domain is not evidence that a reboot occurred. This is
    // the legacy-upgrade path, and it must retain the process-relative
    // ceiling until an operator establishes trusted state.
    for (persisted, current) in [(None, Some(EPOCH_A)), (Some(EPOCH_A), None), (None, None)] {
        let decision = evaluate_durable_clock(
            Some(PersistedClockState {
                boot_epoch: persisted,
                ..previous
            }),
            &reading,
            current,
            MAX_FORWARD_STEP_MS,
        )
        .unwrap();
        assert_eq!(
            decision,
            DurableClockDecision {
                effective_now_ms: previous.last_effective_ms,
                condition: DurableClockCondition::ForwardJumpRejected,
            },
            "unknown domain must not waive the forward-step ceiling"
        );
    }

    // Within one confirmed boot, a small monotonic advance still exposes
    // and rejects a large wall-clock discontinuity.
    let jump_reading = PlatformTimeReading {
        monotonic_anchor_ns: previous.monotonic_anchor_ns + 1_000_000_000,
        monotonic_elapsed_ms: 0,
        ..reading
    };
    assert_eq!(
        evaluate_durable_clock(
            Some(previous),
            &jump_reading,
            Some(EPOCH_A),
            MAX_FORWARD_STEP_MS,
        )
        .unwrap()
        .condition,
        DurableClockCondition::ForwardJumpRejected,
        "matching domains must retain the forward-step guard"
    );
}

#[test]
fn durable_clock_anchor_rollback_and_legacy_zero_stay_fail_closed() {
    let two_hours_ms = 2 * 60 * 60 * 1_000;
    for persisted_anchor_ns in [0, 1_000_000_000] {
        let current_anchor_ns = if persisted_anchor_ns == 0 {
            9_999_999_999
        } else {
            persisted_anchor_ns - 1
        };
        let decision = evaluate_durable_clock(
            Some(PersistedClockState {
                last_effective_ms: 10_000,
                monotonic_anchor_ns: persisted_anchor_ns,
                boot_epoch: Some(EPOCH_A),
            }),
            &PlatformTimeReading {
                utc_ms: Some(10_000 + two_hours_ms),
                monotonic_anchor_ns: current_anchor_ns,
                monotonic_elapsed_ms: 0,
            },
            Some(EPOCH_A),
            MAX_FORWARD_STEP_MS,
        )
        .unwrap();
        assert_eq!(
            decision,
            DurableClockDecision {
                effective_now_ms: 10_000,
                condition: DurableClockCondition::ForwardJumpRejected,
            }
        );
    }
}

#[test]
fn durable_clock_preserves_rollback_and_same_process_semantics() {
    let previous = Some(PersistedClockState {
        last_effective_ms: 10_000,
        monotonic_anchor_ns: 1_000_000_000,
        boot_epoch: Some(EPOCH_A),
    });
    assert_eq!(
        evaluate_durable_clock(
            previous,
            &PlatformTimeReading {
                utc_ms: Some(9_999),
                monotonic_anchor_ns: 1_050_000_000,
                monotonic_elapsed_ms: 50,
            },
            Some(EPOCH_A),
            MAX_FORWARD_STEP_MS,
        )
        .unwrap()
        .condition,
        DurableClockCondition::RollbackFrozen
    );
    assert_eq!(
        evaluate_durable_clock(
            previous,
            &PlatformTimeReading {
                utc_ms: Some(10_050),
                monotonic_anchor_ns: 1_050_000_000,
                monotonic_elapsed_ms: 50,
            },
            Some(EPOCH_A),
            MAX_FORWARD_STEP_MS,
        )
        .unwrap(),
        DurableClockDecision {
            effective_now_ms: 10_050,
            condition: DurableClockCondition::Healthy,
        }
    );
}

#[test]
fn durable_clock_retains_larger_sampler_elapsed_remainder() {
    let decision = evaluate_durable_clock(
        Some(PersistedClockState {
            last_effective_ms: 10_000,
            monotonic_anchor_ns: 1_000_000_000,
            boot_epoch: Some(EPOCH_A),
        }),
        &PlatformTimeReading {
            utc_ms: Some(10_002),
            monotonic_anchor_ns: 1_001_500_000,
            monotonic_elapsed_ms: 2,
        },
        Some(EPOCH_A),
        MAX_FORWARD_STEP_MS,
    )
    .unwrap();
    assert_eq!(decision.effective_now_ms, 10_002);
    assert_eq!(decision.condition, DurableClockCondition::Healthy);
}

#[test]
fn durable_clock_reports_monotonic_arithmetic_overflow() {
    let error = evaluate_durable_clock(
        Some(PersistedClockState {
            last_effective_ms: u64::MAX,
            monotonic_anchor_ns: 1,
            boot_epoch: Some(EPOCH_A),
        }),
        &PlatformTimeReading {
            utc_ms: Some(u64::MAX),
            monotonic_anchor_ns: 1_000_001,
            monotonic_elapsed_ms: 1,
        },
        Some(EPOCH_A),
        MAX_FORWARD_STEP_MS,
    )
    .unwrap_err();
    assert_eq!(error, DurableClockError::ArithmeticOverflow);
}

#[test]
fn platform_decides_which_source_a_name_gives() {
    assert_eq!(
        TrustedTimeSource::for_current_platform(HostPlatform::Macos, "macos-managed-timed").unwrap(),
        TrustedTimeSource::MacosManagedTimed
    );
    assert!(TrustedTimeSource::for_current_platform(HostPlatform::Other, "linux-chrony-nts").is_err());
    let error = TrustedTimeSource::for_current_platform(HostPlatform::Linux, "a \"b\"").unwrap_err();
    assert_eq!(
        error.message(),
        "trusted time source \"a \\\"b\\\"\" does not match this platform or reviewed packaging"
    );
    assert_eq!(
        TrustedTimeError::WallClockRange.message(),
        "platform wall-clock value is outside the supported range"
    );
    assert_eq!(
        TrustedTimeError::StatePoisoned.message(),
        "trusted time sampler state was poisoned"
    );
    assert_eq!(
        DurableClockError::ArithmeticOverflow.message(),
        "monotonic clock arithmetic overflow"
    );
}

#[test]
fn sampler_state_survives_a_refused_anchor() {
    let mut state = Some(SampleState {
        prior_anchor_ns: 10,
        fractional_ns: 5,
    });
    assert!(matches!(
        advance_sample_state(&mut state, 9),
        Err(TrustedTimeError::WallClockRange)
    ));
    assert_eq!(
        state,
        Some(SampleState {
            prior_anchor_ns: 10,
            fractional_ns: 5,
        })
    );
    let mut full = Some(SampleState {
        prior_anchor_ns: 0,
        fractional_ns: 1,
    });
    assert!(advance_sample_state(&mut full, u64::MAX).is_err());
}

#[test]
fn clock_readings_convert_exactly() {
    assert_eq!(timespec_ns(3, 7).unwrap(), 3_000_000_007);
    assert!(timespec_ns(-1, 0).is_err());
    assert!(timespec_ns(0, -1).is_err());
    assert!(timespec_ns(i64::MAX, 0).is_err());
    assert!(timespec_ns(18_446_744_073, 709_551_615).is_ok());
    assert!(timespec_ns(18_446_744_073, 709_551_616).is_err());

    let mut state = None;
    let reading = reading_at(&mut state, timespec_ns(1, 0), Some(42)).unwrap();
    assert_eq!(reading.utc_ms, Some(42));
    assert_eq!(reading.monotonic_anchor_ns, 1_000_000_000);
    assert_eq!(reading.monotonic_elapsed_ms, 0);
    let later = reading_at(&mut state, timespec_ns(1, 2_500_000), Some(43)).unwrap();
    assert_eq!(later.monotonic_elapsed_ms, 2);
    assert!(reading_at(&mut state, Ok(2_000_000_000), None).is_err());
    assert!(reading_at(&mut state, Ok(2_000_000_000), Some(u128::MAX)).is_err());
}

#[test]
fn sampler_keeps_its_source_and_counts_forward() {
    let mut sampler = PlatformTimeSampler::new(HostPlatform::Linux, "linux-chrony-nts").unwrap();
    assert_eq!(sampler.source(), TrustedTimeSource::LinuxSystemClock);
    let first = sampler.sample(boottime()).unwrap();
    let second = sampler.sample(boottime()).unwrap();
    assert_eq!(first.monotonic_elapsed_ms, 0);
    assert!(second.monotonic_anchor_ns >= first.monotonic_anchor_ns);
    assert!(PlatformTimeSampler::new(HostPlatform::Linux, "peer-supplied-time").is_err());
}

#[test]
fn effective_time_never_moves_backwards() {
    for utc in [0u64, 9_999, 10_000, 10_001, 5_000_000, u64::MAX] {
        for epoch in [None, Some(EPOCH_A), Some(EPOCH_B)] {
            let decision = evaluate_durable_clock(
                Some(PersistedClockState {
                    last_effective_ms: 10_000,
                    monotonic_anchor_ns: 1_000_000_000,
                    boot_epoch: Some(EPOCH_A),
                }),
                &PlatformTimeReading {
                    utc_ms: Some(utc),
                    monotonic_anchor_ns: 2_000_000_000,
                    monotonic_elapsed_ms: 3,
                },
                epoch,
                MAX_FORWARD_STEP_MS,
            )
            .unwrap();
            assert!(decision.effective_now_ms >= 10_000);
        }
    }
}

#[test]
fn ticks_convert_exactly() {
    assert_eq!(continuous_ns(24, 125, 3).unwrap(), 1_000);
    assert_eq!(continuous_ns(1, 1, 3).unwrap(), 0);
    assert_eq!(continuous_ns(u64::MAX, 7, 7).unwrap(), u64::MAX);
    assert!(matches!(
        continuous_ns(24, 125, 0),
        Err(TrustedTimeError::WallClockRange)
    ));
    assert!(matches!(
        continuous_ns(u64::MAX, u32::MAX, 1),
        Err(TrustedTimeError::WallClockRange)
    ));
}

#[test]
fn a_continuous_clock_that_cannot_be_read_changes_nothing() {
    let mut sampler =
        PlatformTimeSampler::new(HostPlatform::Macos, "macos-managed-timed").unwrap();
    assert_eq!(sampler.source(), TrustedTimeSource::MacosManagedTimed);
    sampler.sample_at(continuous_ns(24, 125, 3), Some(7)).unwrap();
    assert!(matches!(
        sampler.sample(Err(TrustedTimeError::WallClockRange)),
        Err(TrustedTimeError::WallClockRange)
    ));
    assert!(matches!(
        sampler.sample_at(
            Err(TrustedTimeError::SourceMismatch("none".to_owned())),
            Some(8)
        ),
        Err(TrustedTimeError::SourceMismatch(_))
    ));
    let reading = sampler.sample_at(Ok(3_001_000), Some(9)).unwrap();
    assert_eq!(reading.utc_ms, Some(9));
    assert_eq!(reading.monotonic_elapsed_ms, 3);
}
