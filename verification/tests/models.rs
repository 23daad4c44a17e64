use bbr::game::models::Game;

#[test]
fn screen_stages_flow_forward() {
    let game = Game::new();
    let playing = game.to_playing();
    let _paused = playing.to_paused();
}
