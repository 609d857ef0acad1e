pub mod flash;
pub mod html_template;
pub mod redirect_to_referer_or;
pub mod text;
