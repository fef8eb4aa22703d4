use transaction_context::RentSchedule;

#[test]
#[allow(deprecated)]
fn rent_schedule_default_matches_runtime_rent() {
    let ours = RentSchedule::default();
    let real = solana_rent::Rent::default();
    assert_eq!(ours.lamports_per_byte, real.lamports_per_byte);
    assert_eq!(ours.exemption_threshold, real.exemption_threshold);
    assert_eq!(ours.burn_percent, real.burn_percent);
}

#[test]
#[allow(deprecated)]
fn rent_minimum_balance_matches_runtime_rent() {
    let schedules = [
        solana_rent::Rent::default(),
        solana_rent::Rent {
            lamports_per_byte: 6960,
            exemption_threshold: 2f64.to_le_bytes(),
            burn_percent: 50,
        },
        // A threshold outside the two well-known encodings exercises the
        // general floating-point formula.
        solana_rent::Rent {
            lamports_per_byte: 1000,
            exemption_threshold: 3.5f64.to_le_bytes(),
            burn_percent: 50,
        },
        solana_rent::Rent {
            lamports_per_byte: 0,
            exemption_threshold: 2f64.to_le_bytes(),
            burn_percent: 0,
        },
    ];
    for real in schedules {
        let ours = RentSchedule {
            lamports_per_byte: real.lamports_per_byte,
            exemption_threshold: real.exemption_threshold,
            burn_percent: real.burn_percent,
        };
        for data_len in [0usize, 1, 2, 165, 10 * 1024 * 1024, 10 * 1024 * 1024 + 1] {
            assert_eq!(ours.minimum_balance(data_len), real.try_minimum_balance(data_len));
            if let Some(minimum) = real.try_minimum_balance(data_len) {
                assert_eq!(ours.is_exempt(minimum, data_len), real.is_exempt(minimum, data_len));
                if minimum > 0 {
                    assert_eq!(
                        ours.is_exempt(minimum - 1, data_len),
                        real.is_exempt(minimum - 1, data_len),
                    );
                }
            }
        }
    }
}

#[test]
fn rent_rate_beyond_formula_bounds_is_never_exempt() {
    let ours = RentSchedule {
        lamports_per_byte: u64::MAX,
        exemption_threshold: [1, 2, 3, 4, 5, 6, 7, 8],
        burn_percent: 50,
    };
    assert_eq!(ours.minimum_balance(0), None);
    assert!(!ours.is_exempt(u64::MAX, 0));
}
