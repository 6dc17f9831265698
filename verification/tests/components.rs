use cell_game::components::Lifespan;

#[test]
fn lifespan_hit_takes_one_point() {
    let mut lifespan = Lifespan(1);
    lifespan.hit();
    assert_eq!(lifespan, Lifespan(0));
    assert!(lifespan.is_spent());
}

#[test]
fn lifespan_hit_stops_at_the_least_value() {
    let mut lifespan = Lifespan(i32::MIN);
    lifespan.hit();
    assert_eq!(lifespan, Lifespan(i32::MIN));
}
