use questcraft_core::egui_textures::{textures_to_keep, BoundTexture, TexKey, UserTextureIds};
use questcraft_core::input::{location_is_tracked, Hand, ORIENTATION_VALID, POSITION_VALID};
use questcraft_core::jni_state::SkinData;
use questcraft_core::scene::scene::{controller_model, ControllerModel, SkinType};

#[test]
fn controller_model_follows_skin_and_hand() {
    assert_eq!(controller_model(None, Hand::Left), ControllerModel::WideLeft);
    assert_eq!(controller_model(None, Hand::Right), ControllerModel::WideRight);
    assert_eq!(controller_model(Some(SkinType::Wide), Hand::Left), ControllerModel::WideLeft);
    assert_eq!(controller_model(Some(SkinType::Wide), Hand::Right), ControllerModel::WideRight);
    assert_eq!(controller_model(Some(SkinType::Slim), Hand::Left), ControllerModel::SlimLeft);
    assert_eq!(controller_model(Some(SkinType::Slim), Hand::Right), ControllerModel::SlimRight);
}

#[test]
fn hands_are_ordered() {
    assert!(Hand::Left < Hand::Right);
    assert!(SkinType::Wide < SkinType::Slim);
}

#[test]
fn tracked_locations_need_position_and_orientation() {
    assert!(location_is_tracked(POSITION_VALID | ORIENTATION_VALID));
    assert!(location_is_tracked(0xFF));
    assert!(!location_is_tracked(POSITION_VALID));
    assert!(!location_is_tracked(ORIENTATION_VALID));
    assert!(!location_is_tracked(0));
}

#[test]
fn user_texture_ids_count_up_until_reset() {
    let mut ids = UserTextureIds::new();
    assert_eq!(ids.register(), 0);
    assert_eq!(ids.register(), 1);
    assert_eq!(ids.register(), 2);
    ids.reset();
    assert_eq!(ids.register(), 0);
}

#[test]
fn skin_data_holds_image_and_arm_type() {
    let s = SkinData { png_bytes: vec![0x89, b'P', b'N', b'G'], slim: true };
    assert_eq!(s.png_bytes.len(), 4);
    assert!(s.slim);
}

#[test]
fn managed_pooled_textures_are_kept_unless_freed() {
    let bound = vec![
        BoundTexture { id: TexKey::Managed(1), pooled: true },
        BoundTexture { id: TexKey::Managed(2), pooled: true },
        BoundTexture { id: TexKey::Managed(3), pooled: false },
        BoundTexture { id: TexKey::User(4), pooled: true },
        BoundTexture { id: TexKey::Managed(5), pooled: true },
    ];
    let freed = vec![TexKey::Managed(2), TexKey::User(9)];
    assert_eq!(textures_to_keep(&bound, &freed), vec![TexKey::Managed(1), TexKey::Managed(5)]);
    assert_eq!(textures_to_keep(&vec![], &freed), vec![]);
}
