use insurance::ServiceError;
use insurance::data::{ContractType, Item};
use insurance::insurance::{AuthMagicDto, AuthUserDto, UpdatePasswordDto, auth_magic, auth_user,
    get_user, list_contracts, update_password};
use insurance::shop::{CreateContractDto, create_contract};
use insurance::store::Store;

fn covered_item() -> Item {
    Item {
        id: 11,
        brand: "Vela".to_string(),
        model: "Road 3".to_string(),
        price: 120_000,
        description: "road bicycle".to_string(),
        serial_no: "VR3-0042".to_string(),
    }
}

fn store_with_type() -> Store {
    let mut store = Store::new();
    insurance::insurance::create_contract_type(
        &mut store,
        ContractType {
            id: 1,
            shop_type: "bicycles".to_string(),
            formula_per_day: "base * 0.001".to_string(),
            max_sum_insured: 500_000,
            theft_insured: true,
            description: "coverage".to_string(),
            conditions: "none".to_string(),
            active: true,
            min_duration_days: 30,
            max_duration_days: 365,
        },
    )
    .unwrap();
    store
}

fn contract_request(uuid: u128, username: &str, password: &str) -> CreateContractDto {
    CreateContractDto {
        uuid,
        contract_type_uuid: 1,
        username: username.to_string(),
        password: password.to_string(),
        first_name: "Ada".to_string(),
        last_name: "Byron".to_string(),
        item: covered_item(),
        start_date: 20_000,
        end_date: 20_090,
    }
}

#[test]
fn new_username_gets_plaintext_back_once_and_wrong_password_is_refused() {
    let mut store = store_with_type();
    let first = create_contract(&mut store, contract_request(100, "ada", "s3cret")).unwrap();
    let creds = first.expect("a new user's credentials come back");
    assert_eq!(creds.username, "ada");
    assert_eq!(creds.password, "s3cret");
    // the store holds a digest, never the plaintext
    assert_ne!(store.users[0].password, "s3cret");

    let wrong = create_contract(&mut store, contract_request(101, "ada", "wrong"));
    assert_eq!(wrong, Err(ServiceError::Unauthorized));

    let again = create_contract(&mut store, contract_request(101, "ada", "s3cret")).unwrap();
    assert!(again.is_none());
    assert_eq!(store.users[0].contract_index, vec![100, 101]);
}

#[test]
fn contract_creation_validates_type_and_duration_and_id() {
    let mut store = store_with_type();
    let mut unknown_type = contract_request(100, "ada", "pw");
    unknown_type.contract_type_uuid = 9;
    assert_eq!(create_contract(&mut store, unknown_type), Err(ServiceError::NotFound));

    let mut backwards = contract_request(100, "ada", "pw");
    backwards.end_date = backwards.start_date - 1;
    assert_eq!(create_contract(&mut store, backwards), Err(ServiceError::InvalidInput));

    let mut too_short = contract_request(100, "ada", "pw");
    too_short.end_date = too_short.start_date + 10;
    assert_eq!(create_contract(&mut store, too_short), Err(ServiceError::InvalidInput));

    let mut too_long = contract_request(100, "ada", "pw");
    too_long.end_date = too_long.start_date + 1000;
    assert_eq!(create_contract(&mut store, too_long), Err(ServiceError::InvalidInput));

    assert!(store.users.is_empty());
    assert!(store.contracts.is_empty());

    create_contract(&mut store, contract_request(100, "ada", "pw")).unwrap();
    let duplicate = create_contract(&mut store, contract_request(100, "ada", "pw"));
    assert_eq!(duplicate, Err(ServiceError::Conflict));
}

#[test]
fn auth_user_accepts_only_the_right_password() {
    let mut store = store_with_type();
    create_contract(&mut store, contract_request(100, "ada", "s3cret")).unwrap();
    let good = AuthUserDto { username: "ada".to_string(), password: "s3cret".to_string() };
    let bad = AuthUserDto { username: "ada".to_string(), password: "guess".to_string() };
    let ghost_user = AuthUserDto { username: "eve".to_string(), password: "s3cret".to_string() };
    assert!(auth_user(&store, &good));
    assert!(!auth_user(&store, &bad));
    assert!(!auth_user(&store, &ghost_user));
}

#[test]
fn update_password_rehashes_and_reports_unknown_user() {
    let mut store = store_with_type();
    create_contract(&mut store, contract_request(100, "ada", "old-pw")).unwrap();
    let unknown = UpdatePasswordDto {
        username: "eve".to_string(),
        new_password: "x".to_string(),
    };
    assert_eq!(update_password(&mut store, &unknown), Err(ServiceError::NotFound));
    let change = UpdatePasswordDto {
        username: "ada".to_string(),
        new_password: "new-pw".to_string(),
    };
    assert_eq!(update_password(&mut store, &change), Ok(()));
    let old = AuthUserDto { username: "ada".to_string(), password: "old-pw".to_string() };
    let new = AuthUserDto { username: "ada".to_string(), password: "new-pw".to_string() };
    assert!(!auth_user(&store, &old));
    assert!(auth_user(&store, &new));
}

#[test]
fn auth_magic_never_accepts_a_bare_username() {
    let mut store = store_with_type();
    create_contract(&mut store, contract_request(100, "ada", "pw")).unwrap();
    // a username is not a bcrypt digest, so checking it against itself fails
    assert!(!auth_magic(&store, &AuthMagicDto { username: "ada".to_string() }));
    assert!(!auth_magic(&store, &AuthMagicDto { username: "eve".to_string() }));
}

#[test]
fn get_user_returns_public_details_only_for_known_names() {
    let mut store = store_with_type();
    create_contract(&mut store, contract_request(100, "ada", "pw")).unwrap();
    let found = get_user(&store, &"ada".to_string()).expect("known user");
    assert_eq!(found.username, "ada");
    assert_eq!(found.first_name, "Ada");
    assert_eq!(found.last_name, "Byron");
    assert!(get_user(&store, &"eve".to_string()).is_none());
}

#[test]
fn contract_listing_filters_by_owner() {
    let mut store = store_with_type();
    create_contract(&mut store, contract_request(100, "ada", "pw")).unwrap();
    let mut other = contract_request(200, "grace", "pw2");
    other.first_name = "Grace".to_string();
    create_contract(&mut store, other).unwrap();

    let everyone = list_contracts(&store, None);
    assert_eq!(everyone.len(), 2);
    assert_eq!(everyone[0].uuid, 100);
    assert_eq!(everyone[1].uuid, 200);
    assert_eq!(everyone[0].claims.as_ref().unwrap().len(), 0);

    let name = "ada".to_string();
    let mine = list_contracts(&store, Some(&name));
    assert_eq!(mine.len(), 1);
    assert_eq!(mine[0].uuid, 100);
    assert_eq!(mine[0].contract.username, "ada");
}
