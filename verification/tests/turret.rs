use vcod_server::turret::TurretStance;

#[test]
fn a_turret_stance_comes_from_the_weapon_files_stance_key() {
    assert_eq!(TurretStance::from_key(Some("prone")), TurretStance::Prone);
    assert_eq!(TurretStance::from_key(Some("duck")), TurretStance::Duck);
    assert_eq!(TurretStance::from_key(Some("crouch")), TurretStance::Duck);
    assert_eq!(TurretStance::from_key(Some("stand")), TurretStance::Stand);
    assert_eq!(TurretStance::from_key(Some("Prone")), TurretStance::Stand);
    assert_eq!(TurretStance::from_key(None), TurretStance::Stand);
}

#[test]
fn a_stance_goes_on_the_record_as_its_number() {
    assert_eq!(TurretStance::Stand.number(), 0);
    assert_eq!(TurretStance::Duck.number(), 1);
    assert_eq!(TurretStance::Prone.number(), 2);
}
