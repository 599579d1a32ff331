use flows::game::{GameOutcome, Rotation, TilePos};
use flows::ui::{GameUiResponse, HoverAnimation};

#[test]
fn test_rotation_reversed() {
    // Test the Rotation::reversed() method that we use
    assert_eq!(Rotation(0).reversed().0, 0);
    assert_eq!(Rotation(1).reversed().0, 5);
    assert_eq!(Rotation(2).reversed().0, 4);
    assert_eq!(Rotation(3).reversed().0, 3);
    assert_eq!(Rotation(4).reversed().0, 2);
    assert_eq!(Rotation(5).reversed().0, 1);
}

#[test]
fn test_victory_message_player_numbering() {
    // Test single player victory message uses 1-indexed numbering
    let single_winner = vec![0]; // Player 0 (internal 0-indexed)
    let outcome_single = GameOutcome::Victory(single_winner);

    let text_single = match outcome_single {
        GameOutcome::Victory(winners) => {
            if winners.len() > 1 {
                let one_indexed_winners: Vec<usize> = winners.iter().map(|&p| p + 1).collect();
                format!("Players {:?} win!", one_indexed_winners)
            } else {
                format!("Player {} wins!", winners[0] + 1)
            }
        }
    };
    assert_eq!(text_single, "Player 1 wins!"); // Should show Player 1, not Player 0

    // Test multiple player victory message uses 1-indexed numbering
    let multiple_winners = vec![0, 2]; // Players 0 and 2 (internal 0-indexed)
    let outcome_multiple = GameOutcome::Victory(multiple_winners);

    let text_multiple = match outcome_multiple {
        GameOutcome::Victory(winners) => {
            if winners.len() > 1 {
                let one_indexed_winners: Vec<usize> = winners.iter().map(|&p| p + 1).collect();
                format!("Players {:?} win!", one_indexed_winners)
            } else {
                format!("Player {} wins!", winners[0] + 1)
            }
        }
    };
    assert_eq!(text_multiple, "Players [1, 3] win!"); // Should show Players [1, 3], not [0, 2]
}

#[test]
fn test_hover_animation_logic() {
    // Test fade-in animation calculation
    let fade_in = HoverAnimation {
        start_frame: 10,
        end_frame: 25, // 15 frames duration
        is_fade_in: true,
        tile_pos: TilePos::new(3, 3),
    };

    // Test alpha calculation at different frames during fade-in
    for frame in 10..=25 {
        let progress = if frame < fade_in.end_frame {
            (frame - fade_in.start_frame) as f32 / (fade_in.end_frame - fade_in.start_frame) as f32
        } else {
            1.0
        };
        let progress = progress.clamp(0.0, 1.0);
        let alpha = if fade_in.is_fade_in { progress } else { 1.0 - progress };

        match frame {
            10 => assert_eq!(alpha, 0.0, "Frame 10 should have alpha 0.0"),
            17 => assert!(
                (alpha - 0.466667).abs() < 0.001,
                "Frame 17 should have alpha ~0.467"
            ),
            25 => assert_eq!(alpha, 1.0, "Frame 25 should have alpha 1.0"),
            _ => {}
        }
    }

    // Test fade-out animation calculation
    let fade_out = HoverAnimation {
        start_frame: 30,
        end_frame: 45, // 15 frames duration
        is_fade_in: false,
        tile_pos: TilePos::new(2, 2),
    };

    // Test alpha calculation at different frames during fade-out
    for frame in 30..=45 {
        let progress = if frame < fade_out.end_frame {
            (frame - fade_out.start_frame) as f32
                / (fade_out.end_frame - fade_out.start_frame) as f32
        } else {
            1.0
        };
        let progress = progress.clamp(0.0, 1.0);
        let alpha = if fade_out.is_fade_in { progress } else { 1.0 - progress };

        match frame {
            30 => assert_eq!(alpha, 1.0, "Frame 30 should have alpha 1.0"),
            37 => assert!(
                (alpha - 0.533333).abs() < 0.001,
                "Frame 37 should have alpha ~0.533"
            ),
            45 => assert_eq!(alpha, 0.0, "Frame 45 should have alpha 0.0"),
            _ => {}
        }
    }
}

#[test]
fn test_game_ui_response_default() {
    let response = GameUiResponse::default();
    assert!(!response.play_again_requested);
}

#[test]
fn test_debug_animations_slowdown_argument_processing() {
    // Test the logic that processes the debug_animations_slowdown argument

    // Case 1: No flag provided (None)
    let result1 = match None as Option<Option<f32>> {
        Some(Some(factor)) => factor, // flag with a value
        Some(None) => 10.0,           // flag without a value
        None => 1.0,                  // not specified
    };
    assert_eq!(result1, 1.0, "No flag should result in normal speed");

    // Case 2: Flag provided without value (Some(None))
    let result2 = match Some(None) as Option<Option<f32>> {
        Some(Some(factor)) => factor,
        Some(None) => 10.0,
        None => 1.0,
    };
    assert_eq!(
        result2, 10.0,
        "Flag without value should result in 10x slowdown"
    );

    // Case 3: Flag provided with custom value (Some(Some(5.0)))
    let result3 = match Some(Some(5.0f32)) as Option<Option<f32>> {
        Some(Some(factor)) => factor,
        Some(None) => 10.0,
        None => 1.0,
    };
    assert_eq!(result3, 5.0, "Flag with custom value should use that value");
}

#[test]
fn test_action_count_detection_logic() {
    // Test the core logic of detecting new actions
    let mut last_known_count = 0;
    let current_count = 3;

    // Should detect new actions
    assert!(current_count > last_known_count);

    // After updating, should not detect new actions
    last_known_count = current_count;
    assert_eq!(current_count, last_known_count);

    // New action arrives
    let new_count = 4;
    assert!(new_count > last_known_count);
}
