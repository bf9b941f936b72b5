use glasswing::agents::{MiniMaxAgent, MonkeAgent, NegaMaxAgent, RandomAgent, SimpleAgent};
use glasswing::contest::{Contest, ManagedContest, Match, Player};
use glasswing::games::counting_game::{CountingGame, CountingGameEvaluator};
use glasswing::games::tic_tac_toe::{TicTacToe, TicTacToeEvaluator};
use glasswing::model::Game;
use glasswing::model::TwoPlayerGameResult::{Draw, Winner};
use glasswing::model::TwoPlayerTeam::{One as X, Two as O};
use rand::rngs::StdRng;
use rand::SeedableRng;

#[test]
fn pit_test_match() {
    type TTT = TicTacToe<3>;

    let mut simple_won = 0;
    let mut rng_won = 0;

    for _ in 0..1 {
        let rng = RandomAgent::new(StdRng::from_entropy());
        let minmax = MiniMaxAgent::new(10, TicTacToeEvaluator);
        let match1 = Match::<TTT, _, _>::new(minmax, rng)
            .check_actions(true)
            .with_time_limit(0)
            .enforce_time_limit(false);

        match match1.playout().ok().unwrap().game_result().unwrap() {
            Winner(team) => match team {
                X => {
                    simple_won += 1;
                }
                O => {
                    rng_won += 1;
                }
            },
            _ => {}
        }
    }

    println!("Simple won {} times", simple_won);
    println!("RNG won {} times", rng_won);
}

#[test]
fn minimax_agent_test_alternating() {
    let mut wins_minimax = 0;
    let mut wins_random = 0;
    let mut draws = 0;

    for i in 0..100 {
        let minimax = MiniMaxAgent::new(10, TicTacToeEvaluator);
        let random = RandomAgent::new(StdRng::from_entropy());

        let outcome = if i % 2 == 0 {
            Match::<TicTacToe<3>, _, _>::new(minimax, random)
                .playout()
                .map(|played| played.game_result())
        } else {
            Match::<TicTacToe<3>, _, _>::new(random, minimax)
                .playout()
                .map(|played| played.game_result())
        };

        match outcome {
            Ok(result) => match result.expect("Game result should be present") {
                Winner(winner) => {
                    if winner == X && i % 2 == 0 || winner == O && i % 2 == 1 {
                        wins_minimax += 1;
                        println!("Minimax won as team {:?}", winner)
                    } else if winner == O && i % 2 == 0 || winner == X && i % 2 == 1 {
                        wins_random += 1;
                        println!("Random won as team {:?}", winner)
                    } else {
                        unreachable!("Invalid state")
                    }
                }
                Draw => {
                    draws += 1;
                    println!("Draw")
                }
            },
            Err(_) => {
                panic!("Error: {}", "the match stopped");
            }
        }

        assert!(wins_minimax + wins_random + draws == i + 1);
        assert!(wins_random == 0); // minimax should always win
    }
}

#[test]
fn minimax_agent_test_first_player() {
    let mut wins_minimax = 0;
    let mut wins_random = 0;
    let mut draws = 0;

    for _ in 0..100 {
        let minimax = MiniMaxAgent::new(10, TicTacToeEvaluator);
        let random = RandomAgent::new(StdRng::from_entropy());

        let match_ = Match::<TicTacToe<3>, _, _>::new(minimax, random);

        match match_.playout() {
            Ok(result) => match result.game_result().expect("Game result should be present") {
                Winner(winner) => match winner {
                    X => {
                        wins_minimax += 1;
                        println!("minimax won as team {:?}", winner);
                    }
                    O => {
                        wins_random += 1;
                        println!("random won as team {:?}", winner);
                    }
                },
                Draw => {
                    draws += 1;
                    println!("Draw")
                }
            },
            Err(_) => {
                panic!("Error: {}", "the match stopped");
            }
        }
    }
    assert_eq!(wins_minimax + wins_random + draws, 100);
    assert_eq!(wins_random, 0); // minimax should always win
}

#[test]
fn negamax_agent_test_alternating() {
    let mut wins_minimax = 0;
    let mut wins_random = 0;
    let mut draws = 0;

    for i in 0..100 {
        let minimax = NegaMaxAgent::new(10, TicTacToeEvaluator);
        let random = RandomAgent::new(StdRng::from_entropy());

        let outcome = if i % 2 == 0 {
            Match::<TicTacToe<3>, _, _>::new(minimax, random)
                .playout()
                .map(|played| played.game_result())
        } else {
            Match::<TicTacToe<3>, _, _>::new(random, minimax)
                .playout()
                .map(|played| played.game_result())
        };

        match outcome {
            Ok(result) => match result.expect("Game result should be present") {
                Winner(winner) => {
                    if winner == X && i % 2 == 0 || winner == O && i % 2 == 1 {
                        wins_minimax += 1;
                        println!("Minimax won as team {:?}", winner)
                    } else if winner == O && i % 2 == 0 || winner == X && i % 2 == 1 {
                        wins_random += 1;
                        println!("Random won as team {:?}", winner)
                    } else {
                        unreachable!("Invalid state")
                    }
                }
                Draw => {
                    draws += 1;
                    println!("Draw")
                }
            },
            Err(_) => {
                panic!("Error: {}", "the match stopped");
            }
        }

        assert!(wins_minimax + wins_random + draws == i + 1);
        assert!(wins_random == 0); // minimax should always win
    }
}

#[test]
fn negamax_agent_test_first_player() {
    let mut wins_minimax = 0;
    let mut wins_random = 0;
    let mut draws = 0;

    for _ in 0..100 {
        let minimax = NegaMaxAgent::new(10, TicTacToeEvaluator);
        let random = RandomAgent::new(StdRng::from_entropy());

        let match_ = Match::<TicTacToe<3>, _, _>::new(minimax, random);

        match match_.playout() {
            Ok(result) => match result.game_result().expect("Game result should be present") {
                Winner(winner) => match winner {
                    X => {
                        wins_minimax += 1;
                        println!("minimax won as team {:?}", winner);
                    }
                    O => {
                        wins_random += 1;
                        println!("random won as team {:?}", winner);
                    }
                },
                Draw => {
                    draws += 1;
                    println!("Draw")
                }
            },
            Err(_) => {
                panic!("Error: {}", "the match stopped");
            }
        }
    }
    assert_eq!(wins_minimax + wins_random + draws, 100);
    assert_eq!(wins_random, 0); // minimax should always win
}

#[test]
fn test_contest() {
    let mut contest = Contest::<CountingGame, _, _>::new(
        Player::new(SimpleAgent::new()).with_name("Simple"),
        Player::new(MiniMaxAgent::new(10, CountingGameEvaluator)).with_name("MiniMax"),
    );

    let result = contest.play().ok().unwrap();
    println!("Result: {:?}", result);
}

#[test]
fn test_history() {
    let agent1: MonkeAgent<CountingGame> = MonkeAgent::default();
    let agent2: MonkeAgent<CountingGame> = MonkeAgent::default();

    let mut contest = ManagedContest::new(CountingGame::initial_state(), agent1, agent2);
    contest.play();
    let history = contest.history();
    assert_ne!(history.turns().len(), 0);
}

#[test]
fn test() {
    let mut wins_minimax = 0;
    let mut wins_random = 0;
    let mut draws = 0;

    for i in 0..10 {
        let minimax = MiniMaxAgent::new(10, TicTacToeEvaluator);
        let random = RandomAgent::new(StdRng::from_entropy());

        let outcome = if i % 2 == 0 {
            Match::<TicTacToe<3>, _, _>::new(minimax, random)
                .playout()
                .map(|played| played.game_result())
        } else {
            Match::<TicTacToe<3>, _, _>::new(random, minimax)
                .playout()
                .map(|played| played.game_result())
        };

        match outcome {
            Ok(result) => match result.expect("Game result should be present") {
                Winner(winner) => {
                    if winner == X && i % 2 == 0 || winner == O && i % 2 == 1 {
                        wins_minimax += 1;
                        println!("Minimax won as team {:?}", winner)
                    } else if winner == O && i % 2 == 0 || winner == X && i % 2 == 1 {
                        wins_random += 1;
                        println!("Random won as team {:?}", winner)
                    } else {
                        unreachable!("Invalid state")
                    }
                }
                Draw => {
                    draws += 1;
                    println!("Draw")
                }
            },
            Err(_) => {
                panic!("Error: {}", "the match stopped");
            }
        }
    }
    assert_eq!(wins_minimax + wins_random + draws, 10);
}

#[test]
fn test2() {
    let mut wins_minimax = 0;
    let mut wins_random = 0;
    let mut draws = 0;

    for i in 0..10000 {
        let minimax = MiniMaxAgent::new(10, TicTacToeEvaluator);
        let random = RandomAgent::new(StdRng::from_entropy());

        let match_ = Match::<TicTacToe<3>, _, _>::new(minimax, random);

        match match_.playout() {
            Ok(result) => match result.game_result().expect("Game result should be present") {
                Winner(winner) => match winner {
                    X => {
                        wins_minimax += 1;
                    }
                    O => {
                        wins_random += 1;
                    }
                },
                Draw => {
                    draws += 1;
                }
            },
            Err(_) => {
                println!("Error");
            }
        }

        if i % 1000 == 999 {
            println!(
                "Wins minimax: {}, wins random: {}, draws: {}",
                wins_minimax, wins_random, draws
            );
        }
    }
}
