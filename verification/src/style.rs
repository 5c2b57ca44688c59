//! Built-in stylesheet and tab script shared by the generated config pages.
use vstd::prelude::*;

verus! {

/// Built-in stylesheet of the config page. `extra_css` from `#[config_ui]` is
/// appended after it, so matching selectors override these rules.
pub const CONFIG_PAGE_CSS: &'static str = "*{box-sizing:border-box;margin:0;padding:0}body{font-family:-apple-system,BlinkMacSystemFont,'Segoe UI',Roboto,sans-serif;background:linear-gradient(135deg,#667eea 0%,#764ba2 100%);min-height:100vh;padding:20px}.container{max-width:640px;margin:0 auto;background:#fff;border-radius:12px;box-shadow:0 10px 40px rgba(0,0,0,.2);overflow:hidden}header{background:linear-gradient(135deg,#667eea 0%,#764ba2 100%);color:#fff;padding:24px}header h1{font-size:24px;margin-bottom:4px}header p{opacity:.9;font-size:14px}.nav{display:flex;justify-content:space-between;padding:10px 24px;background:#f5f5f5;border-bottom:1px solid #e0e0e0;font-size:14px}.nav a{color:#667eea;text-decoration:none}.content{padding:24px;position:relative}.config-tabs{display:flex;gap:4px;margin-bottom:16px;flex-wrap:wrap}.config-tab{padding:8px 16px;border:none;border-radius:6px 6px 0 0;background:#eee;color:#555;cursor:pointer;font-size:14px;position:relative}button.config-tab.active{background:linear-gradient(135deg,#667eea 0%,#764ba2 100%);color:#fff}button.config-tab.dirty::after{content:'';position:absolute;top:4px;right:4px;width:7px;height:7px;border-radius:50%;background:#f0ad4e}.config-tab-panel{position:relative;min-height:80px}.config-loading-overlay{position:absolute;inset:0;display:flex;align-items:center;justify-content:center;gap:8px;background:rgba(255,255,255,.85);color:#667eea;z-index:1}.config-tab-panel.loaded .config-loading-overlay{display:none}.loading{width:16px;height:16px;border:2px solid #ddd;border-top-color:#667eea;border-radius:50%;animation:spin 1s linear infinite}@keyframes spin{to{transform:rotate(360deg)}}.config-form{display:flex;flex-direction:column;gap:16px}fieldset.config-form-fieldset{border-radius:8px;padding:16px;display:flex;flex-direction:column;gap:12px}legend.config-form-legend{font-weight:600;padding:0 6px}.config-form-group{display:flex;flex-direction:column;gap:4px}.config-form-label{font-weight:500;font-size:14px}.config-form-input,input[type=\"text\"],input[type=\"password\"],input[type=\"number\"]{padding:10px;border-radius:6px;font-size:14px;width:100%}.config-form-input:focus{outline:none;border-color:#667eea}.config-form-help{font-size:12px}.button-group{display:flex;gap:12px;margin-top:20px}.button-group button{flex:1;padding:12px;border:none;border-radius:6px;font-size:15px;cursor:pointer}button[type=\"submit\"]{background:linear-gradient(135deg,#667eea 0%,#764ba2 100%);color:#fff}button[type=\"button\"]{background:#eee;color:#333}button:disabled{opacity:.5;cursor:not-allowed}.message{display:none;padding:12px;border-radius:6px;margin-bottom:16px;font-size:14px}.message.show{display:block}.message.success{background:#e6f4ea;color:#1e7e34}.message.error{background:#fdecea;color:#b71c1c}";

/// Tab handling for the generated config page: each tab is its own form, saved
/// and reloaded on its own, with a dirty marker for unsaved edits.
pub const CONFIG_PAGE_TAB_SCRIPT: &'static str = "var messageEl=document.getElementById('message');function showMessage(text,isError){if(!messageEl)return;messageEl.textContent=text;messageEl.className='message '+(isError?'error':'success')+' show';setTimeout(function(){messageEl.classList.remove('show');},5000);}function pageLabel(page){var b=document.querySelector('.config-tab[data-page=\"'+page+'\"]');return b?b.textContent:page;}function setDirty(page,dirty){var b=document.querySelector('.config-tab[data-page=\"'+page+'\"]');if(b){if(dirty)b.classList.add('dirty');else b.classList.remove('dirty');}}var loaded={};function switchTab(page){document.querySelectorAll('.config-tab').forEach(function(b){b.classList.remove('active');});document.querySelectorAll('.config-tab-panel').forEach(function(p){p.style.display='none';});var btn=document.querySelector('.config-tab[data-page=\"'+page+'\"]');if(btn)btn.classList.add('active');var panel=document.getElementById('panel-'+page);if(panel)panel.style.display='';if(!loaded[page]){loaded[page]=true;var loadFn=window['loadConfig_'+page];if(loadFn){loadFn().then(function(){panel.classList.add('loaded');panel.querySelectorAll('input,button').forEach(function(el){el.disabled=false;});setDirty(page,false);showMessage(pageLabel(page)+' loaded');}).catch(function(err){var ov=document.getElementById('loading-'+page);if(ov)ov.textContent='Load failed: '+err.message;var rb=panel.querySelector('.reloadBtn');if(rb)rb.disabled=false;});}}}document.querySelectorAll('.config-tab').forEach(function(btn){btn.addEventListener('click',function(){switchTab(this.dataset.page);});});document.querySelectorAll('.config-tab-panel').forEach(function(panel){panel.querySelectorAll('input,button').forEach(function(el){el.disabled=true;});});document.querySelectorAll('.config-tab-panel form').forEach(function(form){var page=form.id.replace('configForm-','');form.addEventListener('input',function(){setDirty(page,true);});form.addEventListener('submit',function(e){e.preventDefault();var saveFn=window['saveConfig_'+page];if(saveFn)saveFn().then(function(){setDirty(page,false);showMessage(pageLabel(page) + ' saved');}).catch(function(err){showMessage('Save failed: '+err.message,true);});});var rb=form.querySelector('.reloadBtn');if(rb)rb.addEventListener('click',function(){var loadFn=window['loadConfig_'+page];if(loadFn)loadFn().then(function(){setDirty(page,false);showMessage(pageLabel(page)+' loaded');}).catch(function(e){showMessage('Load failed: '+e.message,true);});});});";

} // verus!
